use vstd::prelude::*;

use crate::average::{mean_of, RunningAverage};
use crate::console::{console_events, parse_console, RunningMsg, COMPLETE};
use crate::paths::{java_executable, joined, version_dir, version_entry, JAVA_DIR, SERVER_DIR, SERVER_JAR};
use crate::text::{lower_of, texts};

verus! {

/// The character of a decimal digit.
pub open spec fn digit_char(d: int) -> char {
    if d == 0 {
        '0'
    } else if d == 1 {
        '1'
    } else if d == 2 {
        '2'
    } else if d == 3 {
        '3'
    } else if d == 4 {
        '4'
    } else if d == 5 {
        '5'
    } else if d == 6 {
        '6'
    } else if d == 7 {
        '7'
    } else if d == 8 {
        '8'
    } else {
        '9'
    }
}

/// A number in decimal, without sign or leading zeros.
pub open spec fn decimal_of(n: nat) -> Seq<char>
    decreases n,
{
    if n < 10 {
        seq![digit_char(n as int)]
    } else {
        decimal_of(n / 10) + seq![digit_char((n % 10) as int)]
    }
}

fn digit_text(d: u32) -> (r: &'static str)
    requires
        d < 10,
    ensures
        r@ == seq![digit_char(d as int)],
{
    proof {
        reveal_strlit("0");
        reveal_strlit("1");
        reveal_strlit("2");
        reveal_strlit("3");
        reveal_strlit("4");
        reveal_strlit("5");
        reveal_strlit("6");
        reveal_strlit("7");
        reveal_strlit("8");
        reveal_strlit("9");
    }
    if d == 0 {
        "0"
    } else if d == 1 {
        "1"
    } else if d == 2 {
        "2"
    } else if d == 3 {
        "3"
    } else if d == 4 {
        "4"
    } else if d == 5 {
        "5"
    } else if d == 6 {
        "6"
    } else if d == 7 {
        "7"
    } else if d == 8 {
        "8"
    } else {
        "9"
    }
}

/// A number written in decimal.
pub fn decimal_text(n: u32) -> (r: String)
    ensures
        r@ == decimal_of(n as nat),
    decreases n,
{
    if n < 10 {
        let r = String::from_str(digit_text(n));
        assert(r@ =~= decimal_of(n as nat));
        r
    } else {
        let mut r = decimal_text(n / 10);
        r.append(digit_text(n % 10));
        r
    }
}

/// Name of the world the server generates; removed after a benchmark.
pub const WORLD_DIR: &'static str = "world";

/// The arguments the server is started with: the minimum and maximum heap
/// both set to `memory` gigabytes, then the caller's arguments, then the
/// server jar, and for a benchmark the flag that turns the console off.
pub open spec fn launch_args_of(memory: u32, extra: Seq<Seq<char>>, benchmark: bool) -> Seq<
    Seq<char>,
> {
    let heap = decimal_of(memory as nat) + "G"@;
    seq!["-Xms"@ + heap, "-Xmx"@ + heap] + extra + seq!["-jar"@, SERVER_JAR@] + if benchmark {
        seq!["nogui"@]
    } else {
        Seq::empty()
    }
}

fn heap_flag(prefix: &str, memory: &String) -> (r: String)
    ensures
        r@ == prefix@ + (memory@ + "G"@),
{
    let mut r = String::from_str(prefix);
    r.append(memory.as_str());
    r.append("G");
    assert(r@ =~= prefix@ + (memory@ + "G"@));
    r
}

/// Builds the server's argument list.
pub fn launch_args(memory: u32, extra: &Vec<String>, benchmark: bool) -> (r: Vec<String>)
    ensures
        texts(r@) == launch_args_of(memory, texts(extra@), benchmark),
{
    let m = decimal_text(memory);
    let mut r: Vec<String> = Vec::new();
    r.push(heap_flag("-Xms", &m));
    r.push(heap_flag("-Xmx", &m));
    let ghost head = r@;
    let mut i: usize = 0;
    while i < extra.len()
        invariant
            i <= extra@.len(),
            r@.len() == 2 + i,
            texts(r@) == texts(head) + texts(extra@).subrange(0, i as int),
        decreases extra.len() - i,
    {
        let ghost before = r@;
        r.push(extra[i].clone());
        assert(texts(r@) =~= texts(before).push(extra@[i as int]@));
        assert(texts(extra@).subrange(0, i + 1) =~= texts(extra@).subrange(0, i as int).push(
            extra@[i as int]@,
        ));
        i = i + 1;
    }
    assert(texts(extra@).subrange(0, extra@.len() as int) =~= texts(extra@));
    let ghost mid = r@;
    r.push(String::from_str("-jar"));
    r.push(String::from_str(SERVER_JAR));
    if benchmark {
        r.push(String::from_str("nogui"));
    }
    proof {
        let m2 = decimal_of(memory as nat) + "G"@;
        assert(texts(head) =~= seq!["-Xms"@ + m2, "-Xmx"@ + m2]);
        if benchmark {
            assert(texts(r@) =~= texts(mid) + seq!["-jar"@, SERVER_JAR@] + seq!["nogui"@]);
        } else {
            assert(texts(r@) =~= texts(mid) + seq!["-jar"@, SERVER_JAR@] + Seq::empty());
        }
    }
    r
}

/// How to start the server once: which program, with which arguments, in
/// which directory, whether its output is read, and what to remove after
/// it exits.
pub struct LaunchPlan {
    pub program: String,
    pub args: Vec<String>,
    pub working_dir: String,
    /// Standard output is piped to the console parser; otherwise all
    /// streams are inherited.
    pub capture_output: bool,
    /// Removed once the process exits, so the next run starts afresh.
    pub remove_after: Option<String>,
}

/// Describes one launch of the server of `version` under the runtime
/// `jvm`, with `memory` gigabytes of heap. A benchmark launch reads the
/// process's output and removes the generated world afterwards; the
/// warm-up launch that makes the server write its license file does
/// neither.
pub fn launch_jar(
    working_dir: &str,
    version: &str,
    jvm: &str,
    memory: u32,
    args: &Vec<String>,
    benchmark: bool,
    windows: bool,
) -> (r: LaunchPlan)
    ensures
        r.program@ == joined(
            joined(joined(joined(working_dir@, JAVA_DIR@), lower_of(jvm@)), "bin"@),
            if windows {
                "javaw.exe"@
            } else {
                "java"@
            },
        ),
        texts(r.args@) == launch_args_of(memory, texts(args@), benchmark),
        r.working_dir@ == joined(joined(working_dir@, SERVER_DIR@), version@),
        r.capture_output == benchmark,
        benchmark ==> (r.remove_after matches Some(w) && w@ == joined(
            joined(joined(working_dir@, SERVER_DIR@), version@),
            WORLD_DIR@,
        )),
        !benchmark ==> r.remove_after is None,
{
    let program = java_executable(working_dir, jvm, windows);
    let a = launch_args(memory, args, benchmark);
    let dir = version_dir(working_dir, version);
    let remove_after = if benchmark {
        Some(version_entry(working_dir, version, WORLD_DIR))
    } else {
        None
    };
    LaunchPlan { program, args: a, working_dir: dir, capture_output: benchmark, remove_after }
}

/// What a benchmark run has seen: the rates folded in, the last progress,
/// and the score once progress reached completion.
pub open spec fn step(v: (Seq<u64>, u64, Option<int>), m: RunningMsg) -> (
    Seq<u64>,
    u64,
    Option<int>,
) {
    match m {
        RunningMsg::Progress(p) => (v.0, p, if p == COMPLETE {
            Some(mean_of(v.0))
        } else {
            v.2
        }),
        RunningMsg::Result(r) => if v.0.len() < u64::MAX {
            (v.0.push(r), v.1, v.2)
        } else {
            v
        },
    }
}

/// The run after a sequence of messages, in order.
pub open spec fn steps(v: (Seq<u64>, u64, Option<int>), ms: Seq<RunningMsg>) -> (
    Seq<u64>,
    u64,
    Option<int>,
)
    decreases ms.len(),
{
    if ms.len() == 0 {
        v
    } else {
        step(steps(v, ms.drop_last()), ms.last())
    }
}

/// Reduces the benchmark's console messages to a score: rates are folded
/// into a running average, and when progress reaches completion the
/// average at that moment is the score.
pub struct BenchmarkRun {
    average: RunningAverage,
    progress: u64,
    score: Option<u64>,
}

impl View for BenchmarkRun {
    type V = (Seq<u64>, u64, Option<int>);

    closed spec fn view(&self) -> (Seq<u64>, u64, Option<int>) {
        (
            self.average@,
            self.progress,
            match self.score {
                Some(s) => Some(s as int),
                None => None,
            },
        )
    }
}

impl BenchmarkRun {
    pub closed spec fn wf(&self) -> bool {
        self.average.wf()
    }

    /// A run that has seen nothing yet.
    pub fn new() -> (r: BenchmarkRun)
        ensures
            r.wf(),
            r@ == (Seq::<u64>::empty(), 0u64, None::<int>),
    {
        BenchmarkRun { average: RunningAverage::new(), progress: 0, score: None }
    }

    /// Folds in one message.
    pub fn on_message(&mut self, m: RunningMsg)
        requires
            old(self).wf(),
        ensures
            final(self).wf(),
            final(self)@ == step(old(self)@, m),
    {
        match m {
            RunningMsg::Progress(p) => {
                self.progress = p;
                if p == COMPLETE {
                    self.score = Some(self.average.average());
                }
            },
            RunningMsg::Result(r) => {
                if self.average.count() < u64::MAX {
                    self.average.add(r);
                }
            },
        }
    }

    /// Reads one console line and folds in its messages. A progress line
    /// whose numbers do not parse is skipped, and `false` says so.
    pub fn feed_line(&mut self, line: &str) -> (r: bool)
        requires
            old(self).wf(),
        ensures
            final(self).wf(),
            r == (console_events(line@) is Some),
            r ==> final(self)@ == steps(old(self)@, console_events(line@)->0),
            !r ==> final(self)@ == old(self)@,
    {
        match parse_console(line) {
            Ok(msgs) => {
                let ghost start = self@;
                let mut i: usize = 0;
                while i < msgs.len()
                    invariant
                        self.wf(),
                        i <= msgs@.len(),
                        self@ == steps(start, msgs@.subrange(0, i as int)),
                    decreases msgs.len() - i,
                {
                    assert(msgs@.subrange(0, i + 1).drop_last() =~= msgs@.subrange(0, i as int));
                    self.on_message(msgs[i]);
                    i = i + 1;
                }
                assert(msgs@.subrange(0, msgs@.len() as int) =~= msgs@);
                true
            },
            Err(_) => false,
        }
    }

    /// The last progress seen, in thousandths of a percent.
    pub fn progress(&self) -> (r: u64)
        requires
            self.wf(),
        ensures
            r == self@.1,
    {
        self.progress
    }

    /// The score, once the run has completed: the mean rate at completion.
    pub fn score(&self) -> (r: Option<u64>)
        requires
            self.wf(),
        ensures
            r matches Some(s) ==> self@.2 == Some(s as int),
            r is None ==> self@.2 is None,
    {
        self.score
    }

    /// The mean of the rates seen so far.
    pub fn average(&self) -> (r: u64)
        requires
            self.wf(),
        ensures
            r as int == mean_of(self@.0),
    {
        self.average.average()
    }
}

} // verus!
