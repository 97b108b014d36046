# fullstack_auth

The decision logic of a full-stack authentication workspace, written in Verus
and proved against its contracts.

- `src/` is the verified library:
  - `text` — character classes, trimming, searching and string building over
    `Seq<char>`;
  - `error` — the error type and how contracts speak of it;
  - `contracts` — request and response records;
  - `validation` — field checks of sign-in, registration and reset requests;
  - `requests` — the checks each endpoint makes before it touches storage,
    and the redirect allowlist;
  - `access` — session capabilities, route guards, CSRF and credential
    headers, ingress errors;
  - `authz` — preparing an authorization check for the policy engine;
  - `batch` — the order of a batch of authorization checks, as steps that
    the caller performs and hands back;
  - `config` — feature flags, limits and provider credentials over a snapshot
    of configuration values;
  - `cookies` — the session cookie and reading it back;
  - `urls` — query-component encoding and decoding, development callback URLs;
  - `paths` — workspace routes, titles, settings sections;
  - `browser` — query strings of the current page, links in mail, passkey
    prompt errors;
  - `labels` — role names, short ids, initials, form messages, time labels;
  - `board` — the dashboard layout tree and its edits;
  - `mfa` — the enrollment QR code and the authenticator page's screens and
    code fields;
  - `signin` — the email sign-in and registration form as a state machine;
  - `profile_form` — the profile editor and public profile card;
  - `vault` — the secrets vault page: listed secrets, revealed values, the
    create dialog;
  - `passkey_page` — the passkey page's screens and labels;
  - `sessions_page` — revoking sessions of the account;
  - `organizations` — workspace slugs, the create form, workspace links and
    the switcher, the role form's permission list;
  - `workspace_settings` — the settings sidebar and the rename form;
  - `account_forms` — password change and reset, verification and
    invitation links;
  - `providers` — the sign-in provider catalog and buttons.
- `tests/` exercises the library on concrete values.
- `app/` reads the process environment, the clock and request headers, and
  hands them to the library.
