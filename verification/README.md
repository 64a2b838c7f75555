# revanced_discord_bot

The ReVanced Discord bot, with its logic written in Verus and proved
against its contracts.

- `src/` is the verified library: configuration, message responses,
  moderation reports and plans (mutes, bans, channel locks, purges), code
  previews of GitHub links, name curing, polls, the role embed and thread
  events. Calls into `regex`, `reqwest::Url`, `censor`, `decancer`, `sha3`,
  `hex` and `parse_duration` go through small trusted wrappers whose
  contracts are stated beside them.
- `tests/` runs the library on concrete values.
- `app/` is the bot itself: the Discord client (poise and serenity), the
  MongoDB database, the API client and the configuration file. It gathers
  what Discord and the database hold, lets the library decide, and carries
  the decision out.

Run `verus` on `src/lib.rs` to check the proofs.
