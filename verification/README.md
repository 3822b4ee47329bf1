# bountyhub_runner

A runner for the BountyHub platform: it registers with the hub, long-polls
the invoker for jobs, and runs each job's steps (set up its directory,
run shell commands, upload artifacts, tear down) while reporting their
states and logs.

The library in `src/` holds the runner's logic, proved with Verus:

- `ctx`: cancellation contexts as a tree; cancelling a context cancels its
  whole subtree.
- `templ`: parsing of `${{ expr }}` templates.
- `engine`, `jobengine`: the variables a job's expressions see, the engine's
  own functions `is_available` and `has_diff`, and template rendering from
  what the expressions evaluated to. The program evaluates the expressions
  with the `cellang` crate (`app/eval.rs`), whose arithmetic can panic, and
  hands the outcomes to the library.
- `worker`: a job's execution context and the decisions of its steps.
- `config`, `client`: configuration rules, messages and failure
  classification.
- `recoil`, `runner`, `paths`, `artifact`, `streamlog`: retry budgets, the
  book of running jobs, upload paths and the log stream format.

`app/` is the program around it: command line, configuration file, HTTP
requests, processes, archives and threads.
