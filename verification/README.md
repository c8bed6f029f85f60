# home_mixer

The candidate filters, author classifiers, feed-policy decisions and ad-placement rules of the
For You feed's Home Mixer, as a Verus library whose contracts state what each returns.

- `src/text.rs`: character-level text operations (whitespace, trimming, handle normalization,
  splitting, joining, UTF-8 length, substring search), each proved against a spec over `Seq<char>`.
- `src/unicode.rs`: the Unicode properties and the lowercase mapping of std that the library
  calls, behind named results.
- `src/candidate.rs`: the post candidate, the query, the filter result and the order-preserving
  partition every filter is stated with.
- `src/template.rs`: the structural template of a post that duplicate detection compares.
- `src/filters/`: suppressed authors, feed quality, template spam, previously served and
  previously seen posts.
- `src/scorers/`: affiliate badges, government rosters, and the decisions behind the
  feed-policy weight.
- `src/ads/util.rs`: safe gaps, ad spacing, adjacency rules and the interleaving of ads with posts.
- `src/candidate_pipeline/candidate_features.rs`: the hydrated records and the badge's parent
  handle.
- `app/`: the JSON wire form, the floating-point weights, and the calls into the pipeline's
  unpublished crates (protocol types, tokenizer, metrics, pipeline traits).
