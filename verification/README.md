# availcheck

A Prometheus exporter that probes remote endpoints over HTTP, and shows how the probes went at
`/metrics`. A POST request to `/server-reload` makes it read its configuration file again.

`src/` is the logic, verified with Verus:

- `config`: which configurations are accepted, and when two of them are the same;
- `query_providers`, `metrics`: the request of a probe, and what its answer amounts to;
- `url_length`: on which texts the URL parser can be called;
- `report`, `text`: the text that Prometheus reads;
- `server`: the prober, the answers of the web server, and what a reload changes;
- `dns`: how long the address of a host is kept;
- `task`, `walk`: waiting for whichever of several tasks is ready first;
- `blocking_task`: a server that runs a worker for each task;
- `task_history`: what holds of that server over its whole life;
- `errors`, `net`, `time`: plain types.

Functions named `law_..` state what holds of several functions together. What is taken from other
crates without proof (parsing URLs and URIs, building a request, sorting) stands in the few functions that are marked
`external_body`.

`app/` is the program around it: the channels, sockets, threads and files. A configuration file
looks like this:

```yaml
listen_port: 9666
websites:
  - name: example
    url: https://example.com/
    check_time_seconds: 15
```
