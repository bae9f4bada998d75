# rperf3

Network throughput measurement over TCP and UDP, with its logic verified by Verus.

- `src/` is the library: test parameters, the control protocol, the decisions of client and
  server, pacing, packet formats, loss tracking and the reports. Functions carry contracts that
  Verus proves, but for the few that only read a clock, of which nothing can be promised; laws that
  span functions are the public `law_*` proof functions.
- `app/` is the program around it: sockets, clocks, threads, JSON and output.
- `tests/` runs the library from outside.

What is believed without proof is declared in `src/clock.rs` (readings of the host's clocks),
`src/system.rs` (date, random number and host name) and `src/text.rs` (`String::push`).

Rates and shares are exact ratios of integers in the library; the program turns them into decimal
fractions when it shows them, and it keeps the floating-point jitter average.
