# kalshi_mm

A passive market maker for short-lived event contracts on Kalshi, with its logic verified by Verus.

The library (`src/`) holds the logic of trading, with a contract on each function:

* `market_data`: the order book of one market, bids for YES and for NO by price in cents.
* `strategy`: where to quote (spread placement, trend fading, inventory skew), and the actions that
  bring the orders in the market to the quote.
* `risk`: the position, the profit of the day and the limits on both.
* `execution`, `orders`: the program's own orders, the requests that actions make, and what the
  replies change.
* `session`: one market's trading session, from message to outcome and from state to decision.
* `ws`, `json`: the messages and frames of the feed, the commands to it, its address, and what follows
  the end of a connection. JSON is read and written by `serde_json`, addresses by `url`.
* `market_finder`: the choice of the market to trade.
* `clock`: closing times, read by `chrono`, and the seconds until them.
* `config`, `env_file`, `text`: the settings and the file that holds them.
* `book_laws`, `quote_laws`, `session_laws`: what holds of all of this taken together.

The program (`app/`) connects to the exchange, reads decimals and keeps the average of the trend in
floating point, and carries out what a session decides. Requests are signed by the `openssl` command.

## Prerequisites

* The `openssl` command.
* Kalshi API access: `KALSHI_KEY_ID` and `KALSHI_PRIVATE_KEY_PATH`, in the environment or in `.env`.
