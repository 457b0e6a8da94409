# CrossWire

A PPP-over-TLS VPN client with pluggable providers, FortiGate SSL-VPN being the
first. What the client decides and computes is a library whose contracts are
proved with Verus; what touches the outside world is a thin program around it.

```
src/                 the verified library
  framer, io         framing packets, and pumping them between two framings
  transport/         checksums, HDLC and Fortinet frames, TLS decisions, pppd
  net/               planning network changes and undoing them, opening a browser
  fortinet/          logging in, HTTP exchanges and cookies, tunnel parameters
  engine, progress   the course of a connection and the phases it reports
  cli, secret        settings from the command line and a file, prompting
  text, number,      characters, numbers, addresses and paths
  address, path, seqs
app/                 the program: sockets, processes, files, the terminal
tests/               the library on concrete values
```

Functions named `law_*` state what holds of the library as a whole: that frames
come back as the packets they were made from, that it makes no difference how a
stream is cut into chunks, that every exit path tears down what was set up, that
the command line wins over the configuration file, and the like.

What the library relies on and does not prove is marked
`#[verifier::external_body]` or `assume_specification`: calls into `bytes`,
`cookie`, `openssl`, `roxmltree`, `urlencoding` and the standard library, each
with a comment that says what is claimed of it.

Licensed GPL-3.0-or-later.
