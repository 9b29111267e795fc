# wc3bot

A Telegram bot that watches the WarCraft III lobby list of wc3stats and tells
users when a lobby they subscribed to appears: by map name, host or game
name, matched without regard to case or symbols.

The decisions of the bot live in the verified library under `src/`, each
function with a contract that Verus proves:

- `norm`: the normal form of names and the substring match on it;
- `quiet`: clock times and UTC offsets typed by users, and whether a moment
  lies in a user's notification window;
- `db`: the stored records and the decisions on them (whether a lobby
  notifies a subscription, host filters, snoozes);
- `handlers`: what a typed message or a pressed button asks for, the
  pending-input dialog, button data and the texts and layouts of screens;
- `poller`: which lobbies of a fresh list are new, whom they notify, and
  what becomes of the messages that follow lobbies;
- `pinger`, `api`, `loc`: message texts, notification buttons, translations;
- `watcher`: lobby monitoring by explicit follow or host identity;
- `startup`: where the bot token comes from;
- `text`, `clock`: character-level helpers and the system clock.

`app/` is the program around it: the SQLite store, the HTTP client of the
game list, the Telegram dispatcher and the polling loop.
