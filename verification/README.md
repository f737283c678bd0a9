# ferrum_ops

The operations of the Ferrum hosting panel, as a library whose behaviour is
stated in contracts and proved by Verus.

## Layout

- `src/` decides. Every function takes plain values (what the database, the
  machine or the caller said) and gives plain values back: an answer, an error,
  the text of a file, an argument list, or the next step of a procedure.
- `app/` performs. It reads and writes files, runs programs, talks to sockets
  and terminals, and hands what it found to the library.
- `tests/` runs the library on concrete values.

| module | what it decides |
| --- | --- |
| `registry` | which operations there are and who may run them |
| `plan` | plans, limits, suspension |
| `site` | creating, changing, rendering and deleting sites |
| `nodeapp` | Node applications and their systemd units |
| `stack`, `svc`, `services` | components, services, and how configuration is checked and taken up |
| `sftp` | chrooted file access: ownership, membership, passwords |
| `terminal` | who gets which shell; `session` the live ones, `keys` the authorised SSH keys |
| `plugin` | manifests, minisign signatures, payload trees, sidecars |
| `posture` | what is exposed on a server, and what to do about it |
| `tls` | self-signed certificates |
| `procedure` | running steps in order, undoing what a failure leaves, and handing back its error |
| `text`, `path`, `net`, `codec`, `model`, `error` | what the others are made of |

## Contracts

Each type has a view, and contracts speak of views. `error::outcome` turns a
result into the value or the problem that contracts name. Properties that span
several functions are public proof functions whose names begin with `law_`.

What is computed by cryptographic crates is only named (`codec`). The functions
that call other crates are marked `external_body`; their doc comments say what
is claimed of each.
