# worker_selection

The worker selection stage of a gateway that serves language models, written and proved in Verus.

A request names a model. The stage picks the workers that serve it:

- one worker in regular mode;
- a prefill and a decode worker on one runtime in disaggregated mode;
- in addition one encode worker per multimodal item where encoding is disaggregated too.

Where the load of prefill workers is limited, a request that finds them full waits in a bounded
queue. A request that gets no worker is answered: with a terminal 503 where a leg that it needs is
wholly vetoed for overload, and with a 404 where nobody serves the model.

## Layout

- `src/` is the library. `worker`, `pool` and `registry` hold the workers; `headers`, `policy` and
  `policy_registry` the rules by which one of several is picked; `selection`, `stage`, `admission`
  and `prefill` the selection itself; `context`, `multimodal`, `response` and `execute` the run on a
  whole request; `notices` what an operator is told about the pools. `laws`, `encode_laws`,
  `policy_laws`, `failure_laws` and `run_laws` state what holds of every selection, of requests
  without items, and of every pick, answer and run.
- `tests/` runs the library.
- `app/` puts the stage into an asynchronous pipeline: it waits, counts, logs and answers over HTTP.
