# gh-housekeeper

Housekeeping for GitHub Actions: it shows how much storage artifacts, caches and workflow runs
take up, decides by a policy what may go, and deletes it only by a plan that was reviewed twice.

`src/` is a library that decides: what a scan found, what a policy says of it, which plans are
sound, what may be deleted next, when storage or usage calls for an alert, how requests are
repeated and paced, and what a daemon answers. Every function of it has a contract that Verus
proves. Services that talk to GitHub are state machines there: the library says what to ask for
next, and takes the answer.

`app/` is the program around it. It sends the requests, reads and writes files, runs the
schedule, serves the daemon's socket, and prints what the library describes. Called by the name
`gh-housekeeperd` it is the daemon.

`tests/` runs the library on concrete values.

| Module | What it holds |
| --- | --- |
| `model`, `inventory`, `totals` | resources, scans, and what they take up |
| `policy` | retention rules, decisions, cleanup plans made of them |
| `cleanup`, `revalidation`, `execution` | plans for artifacts, their review, their execution |
| `run_purge`, `run_purge_flow`, `run_purge_execution` | the same for workflow runs |
| `cache_purge` | the same for caches |
| `run_protection` | runs that must not go |
| `monitoring` | thresholds, samples, transitions, the schedule |
| `account_usage`, `allowance`, `account_usage_monitoring` | usage of accounts and alerts about it |
| `agent`, `daemon`, `ipc` | the daemon, its protocol, its socket |
| `github` | credentials, addresses, pages, retries, pacing |
| `listing`, `report`, `table`, `labels`, `format` | filters, orders, and the lines that are shown |
| `text`, `time`, `order`, `quantity`, `glob`, `value` | what the rest is built on |

What the library takes on trust stands in a few small functions, each with a comment that names
what it calls: globs (`glob`), the calendar and the clock (`time`), addresses (`github`), JSON
(`ipc`), and two functions of the standard library (`text`).
