# smppd

The decisions of an SMPP proxy and router as a verified library, and the program
around it.

- `src/` is the library. Verus proves the contracts of its functions; those of the
  wrappers around calls into other crates and std are believed, and the functions
  that only read a clock (`Clock::new`, the functions named `now`) promise nothing
  of the reading:
  - `listener`: connections, the protocol session, the registry of sessions;
  - `filter`: authentication, rate limits, a message firewall, client accounts;
  - `firewall`: chains of rules over messages;
  - `pipeline`, `forwarder`: the way of a message upstream, retries, receipts;
  - `cluster`: load balancing, pools, health checks, circuit breakers, mocks;
  - `feedback`: decisions, their outcomes and statistics;
  - `cdr`: call detail records;
  - `config`: configuration and its validation;
  - `bootstrap`, `admin`: events, the server's life, the admin interface;
  - `text`, `collections`, `time`, `double`, `net`, `regexes`, `pdu`: what these rest
    on.
- `tests/` runs the library.
- `app/` is the program: configuration files, sockets, threads, signals, HTTP. It
  talks SMPP with the `smpp` crate.

Where the library calls another crate or std, a wrapper says in its contract what
is believed of the call; its comment says it in words. What depends on a clock is
split: one function takes the moment as an argument and has an exact contract, and
another one reads the clock and calls it.

Laws that relate several functions are public proof functions beside them.
