# kirafan_newsbot_rust

A bot that archives the news pages of the Kirara Fantasia site, with the
logic written in Verus and verified.

- `src/` is the verified library: splitting and storing line lists
  (`text`, `module`), reading listing and news pages with regexes and CSS
  selectors (`module`, `news`, `savenews`), choosing where each download is
  filed (`archive`, and the first version in `legacy`), the retry rule for
  fetches and downloads (`retry`), and announcing each news item once
  (`announce`). `outside` holds every call into the regex, scraper and
  twitter-text crates, with the contracts the proofs rely on.
- `app/` is the program around it: the network and file access, the Tokio
  tasks, posting to Twitter, and the run over every listing page.
- `tests/` runs the library on concrete pages, URLs and line lists.
