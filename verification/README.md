# butai

The decision logic of the Butai scraping engine, verified with Verus.

- `src/site.rs`: kinds of scrapers, their escalation order, site hints.
- `src/scraper.rs`: the outcome of one scraping attempt.
- `src/worker.rs`: one scraping run of one site as a state machine (which
  scrape to perform, what follows an answer), with
  the proofs that a run tries each kind at most once, ends after at most three
  attempts, and remembers the kind that succeeded.
- `src/config.rs`: the configured sites over `slotmap` maps, with the proofs
  that a snapshot gives back the listed sites and that replaced hints are read
  back.
- `src/slots.rs`: the trusted contracts of the `slotmap` calls.
- `src/opts.rs`: the scraping interval, read with `humantime`.
- `src/span_bound.rs`: the most a duration text can add up to, read span by
  span as `humantime` reads it; texts that could reach 2^64 seconds, where
  `humantime` fails, are answered without it.
- `src/orix.rs`: the event page address of the ORIX Theater.
- `app/`: the engine program: command line, configuration file, logging,
  the browser, the scrapers and the async scraping loop.
