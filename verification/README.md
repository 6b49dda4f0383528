# feedscan

The verified core of two desktop tools: a feed reader (subscriptions, OPML
import, article extraction, a local SQL bridge and a companion Node.js
server) and a security-scan manager that runs the Strix scanner in Docker
and keeps its findings.

`src/` is checked by Verus. Every public function states what it returns in
terms of spec functions, and the laws of the library are public proof
functions:

| module | what it holds |
|---|---|
| `text` | character-level string operations (`lines`, `split`, `join`, `trim`, numerals) and the std conversions the library names |
| `feed` | subscription URL normalisation and the conversion of parsed feeds |
| `opml` | the OPML reader as a state machine over XML events |
| `article` | article extraction with regular expressions, icon lookup, fetch rules |
| `report` | reading findings out of JSON and Markdown reports |
| `scan`, `store` | scan records, statistics, stored rows |
| `docker` | the docker command lines, shell quoting, image and container discovery, tool-server tokens |
| `paths` | where the scanner, the interpreter and the feed server are looked for |
| `python` | the embedded-interpreter programs and what is made of their output |
| `query` | the decisions of the SQL bridge |
| `server` | starting the feed server and waiting for it |
| `json`, `patterns`, `xmlread` | plain JSON values, and the trusted calls into `regex` and `quick_xml` |

`app/` is the unverified command-line front end: it does the I/O (HTTP,
SQLite, processes, files) and hands plain values to the library.
