# dao_querying

Collects DAO governance data from the Boardroom API and from governance
subgraphs, and prints per-DAO tables about their proposals.

- `src/` is the verified library (Verus): the data model, the decoding of
  enumerated and numeric fields, decimal numerals, request addresses and
  bodies, page-by-page collection of proposal lists, and the per-DAO
  tallies and table rows, each with its contract and the laws that relate them.
- `app/` is the command-line program around it: HTTP requests, files,
  serde (de)serialisation of the response types, the fractional averages,
  and printing. Run it as `dao_querying fetch-cnames | fetch-proposals |
  analyze | graph`.
- `tests/` exercises the library on concrete values, among them a comparison
  of the numeral reader with `str::parse`.
