# bili_account

The account side of a ticket-grabbing client, with machine-checked proofs.

- `src/cookie.rs`: reading the csrf token (`bili_jct`) out of a cookie
  header, with the splitting and trimming it rests on, and the laws of that
  reading.
- `src/nav.rs`: the retry policy of the account lookup, a state machine that
  takes what each attempt came to and says whether to use the result, wait
  and retry, or give up, with the error text it reports.
- `src/account.rs`: reading the lookup's JSON body, building an account
  from its description,
  the sign-out request and its outcome, and the user agent of an account's
  own client.
- `src/monitor.rs`: the labels, colours and texts of the monitor panel and
  the log window.
- `src/text.rs`: decimal and `Debug` notation of numbers.

`app/` holds the HTTP requests, the async runtime, the `egui` drawing code
and the serde copy of `Account`.
