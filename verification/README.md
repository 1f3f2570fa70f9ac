# arctos

The logic of a tournament site: a schedule that is shown as a timeline or a table and edited by
dragging, the forms that change it, the start of a match, the scoreboard, and the clock that paces
a match.

`src/` is the library. Every function in it has a contract that Verus proves, and the properties
that span several functions are stated as public proof functions named `law_...`. What the library
takes without proof from `std`, `chrono` and `urlencoding` stands in `text`, `clock` and `fields`,
each item with a comment that says what is claimed.

| modules | what they are about |
| --- | --- |
| `text`, `order`, `moment`, `clock` | texts, lists, moments, and calendar texts |
| `types` | what the tournament service sends and takes |
| `schedule_time`, `days`, `lanes` | when matches are shown, and side by side with what |
| `teams`, `deps` | who plays and refs, and what a match depends on |
| `timeline`, `grid`, `overlay`, `card`, `table` | the views of a schedule |
| `drag`, `match_form`, `group_form`, `fields`, `page` | the editor and the page |
| `start_match`, `scoreboard`, `tournament_home`, `time_sync` | the other pages |

`tests/` runs the library on concrete values. `app/` is the user interface around it: pages made
with Dioxus, what they need from a browser, the JSON forms of the types, and whatever is computed
with floating-point numbers.
