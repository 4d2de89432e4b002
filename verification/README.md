# rumpelpod

The host side of Rumpelpod, which runs development pods in containers on this
machine, on SSH hosts or in a cluster.

`src/` is the library: every decision that the host side makes, free of input
and output, with contracts that Verus proves. What waits for a process, a socket
or a file is driven from outside: a machine such as `Greeting`, `Cleanup` or
`LfsUpload` says what to do next, and its `step` takes what came of it.

| Module | What it decides |
| --- | --- |
| `text`, `paths` | trimming, splitting, comparing and joining text |
| `outside` | the calls into other crates, with the contracts that are believed |
| `failure` | what failed, and why |
| `command` | what a finished command means, which process group to kill |
| `git` | what a repository says of itself |
| `lfs` | which LFS objects to upload before refs are pushed |
| `config` | hosts, container engines, who waits |
| `creation`, `cleanup` | records of unconfirmed creations, and which to delete |
| `podman_ssh` | the socket that bridges Podman over SSH |
| `greeting`, `readiness` | waiting for the server in a container |
| `client` | the requests to that server, and what the answers mean |
| `upload` | archives sent while they are made, answers read piece by piece |

`app/` is ordinary Rust around it: tokio tasks, HTTP with reqwest, repositories
with git2, files, signals and sockets. `tests/` runs the library.
