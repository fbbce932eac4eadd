# awslogs

Read AWS CloudWatch logs and search Kinesis data streams from the command line.

    awslogs get GROUP STREAM_PATTERN
    awslogs groups
    awslogs streams GROUP
    awslogs kinesis shards STREAM
    awslogs kinesis search STREAM
    awslogs tui

The library in `src/` holds what the program decides and computes, written in Verus with its
contracts proved:

- `time`, `calendar`: date arguments such as `5m`, `2 hours ago`, `1/1/2015 12:34` or
  `2016-08-31 10:23:25 UTC-8`, in milliseconds since the epoch;
- `logs`: stream selection, paging without repeats, and the lines of CloudWatch events;
- `kinesis`: shards, windows and the lines of Kinesis records; watched shards take turns;
- `query`, `pattern`: JMESPath queries and regular expressions;
- `client`: what is exchanged with the services, as plain values;
- `cli`, `exceptions`: arguments, configurations, messages and exit codes;
- `engine`, `tui`: the state of the terminal front-end, the commands that it gives, and the
  messages that answer them, in their order;
- `text`: operations on strings.

What talks to the outside, the AWS clients, the threads, the terminal's widgets and the process
itself, is ordinary Rust in `app/`. Calls into other crates that the library itself makes stand
behind small functions whose contracts say what is believed of those crates.
