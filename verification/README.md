# membrane-daemon

The customer-side daemon of the membrane cloud. It holds an outbound tunnel to
the cloud and answers its requests (read this file, list this directory, run
this command) under a policy that the customer controls; every answer but a
pong is recorded in a local audit log.

## Layout

`src/` is the library, verified with Verus. It decides; it does no I/O.

| Module | What it decides |
| --- | --- |
| `config` | policies, and the configuration that two policy files come to |
| `handlers` | what to do for a request, step by step, and how it ends |
| `rpc`, `wire` | framing, and the loop over a stream of frames |
| `tunnel` | dialing, backoff, one RPC per stream, the pinned certificate |
| `pairing` | keys, signing requests, tokens and their installation |
| `x509` | what certificates hold, and whether they can be written |
| `audit` | the audit log's entries, and which of them are shown |
| `cli` | what the commands of the command line do |
| `service` | the service under systemd, launchd and Windows |
| `paths`, `pathname` | where files are, and what lies under what |
| `resolve` | where a path leads on a disk that holds symlinks |
| `text`, `lines`, `hex`, `order`, `failure` | the tools of the others |
| `deps` | calls into other crates, with what is believed of them |

A function that needs the disk, the network or a child process is a state
machine: it takes what happened and says what to do next. `app/` is the program
that does it, with the command line, the sockets and the serialised forms of
the library's types. `tests/` run the library.

Public proof functions named `law_...` state what holds across functions: that
nothing is done unless policy allows it, that a frame is read back as it was
written, that a write names the file it expects or is refused, and so on.
