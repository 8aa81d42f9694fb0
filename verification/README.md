# load_balancer

A proxy load balancer that hands each request to one of a fixed set of
worker hosts, and the worker side's health-check endpoint.

- `src/` is the verified library (Verus):
  - `strategy/`: the strategies (round robin, random, fastest server,
    fewest connections), their names, and the manager that switches
    between them;
  - `performance/`: the measurements the strategies go by: worker queues
    kept in order of delay or of open connections, and each host's latency
    history;
  - `balancer.rs`: the load balancer itself: picking a worker, building
    the forwarded address, and changing the strategy on request;
  - `routing.rs`: routing by path, reading the `strategy` query parameter,
    and the answer text;
  - `worker.rs`: the worker's health-check answer and configuration values.
- `app/` is the program around it: the HTTP servers (hyper for the load
  balancer, axum for the worker), environment variables and sockets.
- `tests/` runs the library on concrete values.

Design notes:

- The worker queues are vectors kept in ascending order of delay (or of
  open connections), with that order as their type invariant, in place of
  `BinaryHeap`s of reversed entries: a `BinaryHeap` has an allocator
  parameter that Verus cannot declare.
- The latency histories are a vector of (host, history) entries whose hosts
  are unique, viewed as a map, in place of a `HashMap` keyed by `String`:
  vstd's specification of `HashMap` gives nothing usable for `String` keys.
  This form was chosen without trying the `HashMap` one in Verus.
- The four strategies are fields of the manager, chosen by a match on the
  strategy's name, in place of a map of boxed trait objects.
- Where a request cannot be served (no worker, an address that is no URI, no
  query, no `strategy` parameter, an unknown name) or a configuration value
  is missing or unreadable, the library returns an error value that says
  which, and changes nothing it has not said it changes; the program then
  stops with the matching message.
