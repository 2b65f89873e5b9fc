# sccache-dist

The decision core of a distributed compile service, verified with Verus.

A scheduler hands compile jobs to workers. A worker keeps a ledger of the jobs it
was given. A cache client asks a gateway for leave before it touches a cached
object. The library holds the state and the rules of the three; it does no input or
output. Clock readings, replies of other machines and outcomes of file operations
come in as plain arguments, and each call says what to do next.

## Layout

| Module | What it holds |
| --- | --- |
| `dist` | the vocabulary that scheduler and workers share |
| `load` | how heavily a server is loaded |
| `scheduler` | the scheduler's records, heartbeats, dropping of silent servers |
| `scheduler::allocation` | which server gets the next job |
| `scheduler::job_state` | the life of a job as the scheduler sees it |
| `scheduler::status` | the totals that the scheduler reports |
| `scheduler_laws` | what holds of the scheduler whatever happens |
| `settled_laws` | how the records of jobs and of servers agree |
| `ledger` | a worker's record of its jobs, with a bounded memory of those that left |
| `server`, `upload`, `run_job` | what a worker does with the requests it gets |
| `report` | how long a worker keeps trying to report a job |
| `ledger_laws` | what holds of a ledger over any course of events |
| `auth` | tokens and secret keys |
| `touch`, `touch_laws` | exchanges with the gateway, grants, guarded operations |
| `json`, `text` | small pieces of text handling |

The records are modelled by ghost values (`LedgerState`, `SchedulerState`), and each
handler states the step it takes on them. The functions named `law_..` are the
properties that span several steps.

Two calls into other crates are trusted: `base64` for secret keys (`auth`) and
`serde_json` for quoting text (`json`). Their contracts stand next to them.

`app/` is the program around the library: locks, clocks, requests, command line. The
network, the builders and the toolchain cache are traits there (`app/transport.rs`), and
no implementation is linked in: the commands `scheduler` and `server` check their set-up
and then end with an error. The commands under `auth` work.
