# omni-log-forwarder

A log-forwarding policy for an API gateway. Each logging configuration renders
a line from a transaction; the line becomes an OTLP log record, waits in a
bounded queue and is posted in batches to `<endpoint>/v1/logs`.

`src/` is the library. It is written in Verus: every function in it is proved
against its contract, except for the calls into other crates and into `std` that
are named below.

| Module | What it holds |
|---|---|
| `text` | ASCII case folding, comparison, decimal notation |
| `json` | the JSON model and the calls into `serde_json` |
| `otel` | log entries, severities, OTLP records and documents |
| `queue` | the bounded export queue |
| `attributes` | the headers that expressions see |
| `script` | compiling and lazily evaluating expressions |
| `config` | the configuration and its defaults |
| `policy` | the request and the response phase |
| `export` | the steps of the exporter |
| `laws` | what holds across functions |

`app/` is the policy inside the gateway: live traffic, timer, HTTP client and
the deserialization of the configuration. `tests/` runs the library, partly in
an in-process gateway.

What Verus takes on trust is marked `external_body` or `assume_specification`:
calls into `serde_json` (`json`), into the expression engine of `pdk`
(`script`), and three functions of `std`: two case conversions (`text`) and the
filling of a hash map (`attributes`). The doc comment of each
says what is claimed of it. Expressions may draw at random, so what they
evaluate to is described by relations, not by functions.

The expression engine panics on some expressions: `substringBeforeLast` with an
empty separator does on a text that ends in a character of several bytes, and a
negative index beyond the size of what it selects from does in builds that check
overflow. The functions that compile or evaluate expressions require that no
such panic can come (`compilation_returns`, `cheap_inputs_return`,
`evaluation_returns`). Neither the library nor `app/` can test this: it is for
whoever writes the expressions to see to.
