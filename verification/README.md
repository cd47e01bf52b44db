# claudex dashboard core

The verified state and rules behind the claudex profile dashboard.

- `text`: byte positions in UTF-8 text, the `String` edits at a byte
  position, case-insensitive substring search, and decimal numbers
  (reading a `u32` and writing an unsigned number).
- `profile`: provider profiles, their provider and authentication types, and
  the snapshots the profile list shows.
- `form`: the profile form. Each field has a kind (text, password, selection,
  switch, number), a text and a byte cursor; the form turns a profile into
  fields and the fields back into a profile.
- `notification`: messages with a level and the moment they were raised.
- `app`: the dashboard state, the search filter over the profile list and the
  highlighted entry.
- `profile_list`: finding, saving and deleting profiles, and the messages
  that report it.
- `proxy_launch`: the command line, health address and proxy exemption of the
  background proxy, and when waiting for it ends.

Verus proves each function against its contract. The few calls into std that
stand behind trusted wrappers (editing a `String` at a byte position, case
folding, substring search, and the clock) have contracts that restate std's
documentation; what the clock reads is left unstated, and the verdicts drawn
from it are taken by verified functions (`expired_after`,
`App::dismiss_notification_if`). The laws that tie several functions together
are the `law_*` proof functions.
