# tickrush

The market cache of a reader of saved Betfair Exchange price streams, written
in Verus with its behaviour stated in contracts and proved.

A stream file holds one JSON message per line.  Each message updates a cache of
one market (status, definition, and per runner the ladders of prices available
to back and to lay, the traded volume and the starting prices), and after each
message the cache yields a market book.

Layout:

- `src/` the verified library: `json` (the values messages are made of),
  `floatbits` (binary64 values held as bit patterns), `ladder`, `runner`,
  `definition`, `market`, `dict` (books as plain dictionaries), `parse` (what a
  line contributes), `stream` (replay), `laws` (properties across updates).
- `tests/` runtime tests of the library.
- `app/` the Python extension: file reading (with gzip), JSON decoding, and the
  Python classes built from the library's books.  A runner book, a price
  listing or a market definition that the library marks as unchanged since the
  previous book is handed out again as the same Python object.
