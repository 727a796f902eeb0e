# jUtils

A Discord utility bot: moderation, guild configuration, package and profile
look-ups, time zones, and a leveling system with rank cards.

- `src/` is the verified library. It holds the bot's rules and data: the leveling
  table (experience thresholds, merging, ranks, the leaderboard), the message-rate
  tracker, the guild configuration categories, help pages and permission pages,
  the replies of every command, message-link quoting, duration and number
  formatting, and the pixel edits of rank cards. Every public function states what
  it returns in its contract, and the laws of the library are proof functions.
- `app/` is the program around it: the command framework, the gateway events,
  MongoDB, HTTP look-ups, the configuration file and image encoding.
- `tests/` runs the library on concrete values.
