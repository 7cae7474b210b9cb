# meow

A rule-based tunnel: its configuration, its control interface and its AnyTLS
sessions, as a library that [Verus](https://github.com/verus-lang/verus) verifies.

## Layout

- `src/` is the library. Every public function has a contract that says what it
  returns, and Verus proves that it does, given what is taken on trust (below).
  - `anytls/`: frames, padding, sessions, the pool of sessions, and the streams and
    datagrams that they carry.
  - `config/`: the configuration as it is written (`raw`, `yaml`), the proxies and
    groups that it describes (`proxy`, `vless`, `group`, `outbound`,
    `proxy_registry`), names and nameservers (`dns`, `nameserver`, `ech`), sources of
    rules (`rule_provider`), geographical databases (`geo`), listeners, and the whole
    (`assemble`).
  - `api/`: what the control interface answers.
  - `daemon/`: health checks, services of the system, and what is started.
  - `common/`: types of rules, and which process owns a socket.
  - `text`, `number`, `net`, `cidr`, `paths`, `pattern`, `codec`, `http`: what the
    others are built from.
- `tests/` runs the library on concrete values.
- `app/` is the program around it: the command line, files, sockets, the HTTP
  server and the tasks that run in the background. It carries direct connections;
  the other protocols are described by the library and not spoken by the program.

## Laws

The properties that hold across functions stand in `src/` as public proof functions
whose names begin with `law_`: that frames are read back from their bytes, that
padding changes nothing that the peer reads, that closing a session ends each of its
streams, that frames held back go out once and in order, that references between groups never run in a circle, that the order in which
groups are written does not matter, that saving a file is atomic, and so on.

## What is taken on trust

Where the library calls another crate, or a part of the standard library that has no
contract yet, a function marked `#[verifier::external_body]` makes the call and says
in its contract what the call gives; a few outside functions have such a contract
through `assume_specification` instead. Verus believes these contracts and proves
nothing of them, so what is proved above them holds as far as they are true. The
comment of each names the outside function.
