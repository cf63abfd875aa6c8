# orderbook_quoter

A price-level order book fed by exchange depth updates, verified with Verus.

Depth updates stream in from exchanges over websockets, are buffered, and are
applied to a book of preinitialised price levels. After each applied update
the book can quote the ten best asks, the ten best bids and the spread.

Prices and quantities are whole thousandths (2700.63 is `2_700_630`).

## Layout

- `src/orderbook.rs`: the book, its grid of levels, depth updates,
  traversals and quotes, with the laws that tie them together.
- `src/ring_buffer.rs`: the bounded buffer of depth updates and the channel
  that fills it.
- `src/stream.rs`: where an exchange stream's updates go while a snapshot is
  taken, and what each poll of the stream amounts to.
- `src/channel.rs`: a fixed-capacity channel with one receiver and a bounded
  number of senders, with one-poll send and receive steps.
- `src/market.rs`, `src/order.rs`, `src/binance.rs`: exchange messages and how
  they become depth updates and orders.
- `src/config.rs`, `src/errors.rs`, `src/objects.rs`, `src/controller.rs`,
  `src/market_maker.rs`: settings, errors, shared values.
- `app/`: the program around the library: configuration file, websocket and
  HTTP clients, threads, and the asynchronous channel adapters.
- `tests/`: tests of the library.
