# reward_shaping_trading

Reward shaping for reinforcement-learning trading agents.

- `src/` is the verified library (Verus): the trading actions and their
  Q-table columns, the tabular state id, the rolling-window and step-clock
  rules, the Bybit kline request address and response handling, and decimal
  text of unsigned integers.
- `app/` holds what works on floating-point prices and rewards (candles,
  portfolio state, the reward shapers, the Q-learning agent, metrics,
  training) and the HTTP call to Bybit, all calling into the library.
- `tests/` exercises the library.
