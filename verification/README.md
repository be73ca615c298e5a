# arachne

A classifieds scraper whose decisions are proved with Verus.

- `src/` is the verified library: text helpers (`text`), phone and name
  normalization and profile matching (`pipeline`), the listing and profile page
  readers over CSS selections (`crawler`), the scrape run as a state machine
  (`scrape`), photo keys and perceptual-hash handling, rate-limit windows, bucket
  and upload outcomes (`storage`), settings defaults (`config`) and the error type.
- `app/` holds what Verus does not see: the command line, the HTTP health
  endpoint, the headless browser, PostgreSQL, Redis and S3 clients, and the loop
  that performs the actions the scrape state machine asks for.
- `tests/` exercises the library on concrete pages, phone numbers and names.
