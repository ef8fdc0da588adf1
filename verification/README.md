# luau_lifter

The naming pass of a Luau bytecode decompiler, verified with Verus, and the
request handling of the decompiler's HTTP front end.

- `src/ast.rs`: the part of a lifted syntax tree that the naming pass reads;
  locals are numbered, and their names live in one table.
- `src/text.rs`: identifiers decoded from string literals, comparisons with
  fixed words, decimal numerals.
- `src/counts.rs`: how often each base name has been handed out.
- `src/naming.rs`: the pass (`rename_services`) and its pieces, each with a
  specification of what it computes.
- `src/laws.rs`: properties of every run of the pass.
- `src/server.rs`: decoding a Base64 request body, and the status code of a
  failed request.
- `app/`: the HTTP server, and the lifting pipeline that produces the trees
  the pass names.
