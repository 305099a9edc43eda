# pheasant

Building blocks of an HTTP/1.1 server, verified with Verus: status codes
and methods, two message lexers, request and response types, header
collections, cookies, cross origin resource sharing, content codings, and
IPv4/IPv6 socket address types.

- `src/` is the verified library. Each public function states in its
  contract what it returns; laws that relate several functions stand as
  public proof functions next to the functions they speak of.
- `tests/` runs the library on concrete inputs.
- `app/` holds what needs the machine or an outside trait: printing
  messages, writing header collections into byte buffers, the serde and
  `quote` forms of methods and error statuses, and the clock.
