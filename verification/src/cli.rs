//! The launcher: what its command line means, what its instances' files are called,
//! and how their announcements are read.
//!
//! Every instance is known by its bridge port, so that several can run side by side.

use crate::text::{
    begins_with, chars_of, ends_in, join, matches_at, parse_i32, parsed_i32, same_text,
    strip_prefix, strip_suffix, text_from, trim, trimmed,
};
use vstd::prelude::*;
use vstd::string::*;

verus! {

/// One running stack, known by its port.
#[derive(Debug)]
pub struct Instance {
    pub port: String,
}

/// A file of an instance.
pub open spec fn file_of(port: Seq<char>, suffix: Seq<char>) -> Seq<char> {
    "/tmp/wlmac-"@ + port + "-"@ + suffix
}

impl Instance {
    /// The instance of a port.
    pub fn new(port: String) -> (i: Self)
        ensures
            i.port == port,
    {
        Instance { port }
    }

    fn file(&self, suffix: &str) -> (r: String)
        ensures
            r@ == file_of(self.port@, suffix@),
    {
        let mut r: String = String::from_str("/tmp/wlmac-");
        r.append(self.port.as_str());
        r.append("-");
        r.append(suffix);
        r
    }

    /// The socket of the waypipe client.
    pub fn client_sock(&self) -> (r: String)
        ensures
            r@ == file_of(self.port@, "waypipe-client.sock"@),
    {
        self.file("waypipe-client.sock")
    }

    /// The compositor's log.
    pub fn comp_log(&self) -> (r: String)
        ensures
            r@ == file_of(self.port@, "compositor.log"@),
    {
        self.file("compositor.log")
    }

    /// The waypipe client's log.
    pub fn waypipe_log(&self) -> (r: String)
        ensures
            r@ == file_of(self.port@, "waypipe.log"@),
    {
        self.file("waypipe.log")
    }

    /// The TCP bridge's log.
    pub fn socat_log(&self) -> (r: String)
        ensures
            r@ == file_of(self.port@, "socat.log"@),
    {
        self.file("socat.log")
    }

    /// The file with a child's process id.
    pub fn pidfile(&self, name: &str) -> (r: String)
        ensures
            r@ == file_of(self.port@, name@ + ".pid"@),
    {
        let suffix = join(name, ".pid");
        self.file(suffix.as_str())
    }
}

/// Files of the same kind tell instances apart: different ports, different files.
pub proof fn lemma_instances_share_no_file(a: Seq<char>, b: Seq<char>, suffix: Seq<char>)
    requires
        file_of(a, suffix) == file_of(b, suffix),
    ensures
        a == b,
{
    let p = "/tmp/wlmac-"@;
    let t = "-"@ + suffix;
    assert(file_of(a, suffix) =~= p + a + t);
    assert(file_of(b, suffix) =~= p + b + t);
    assert(a.len() == b.len());
    assert forall|i: int| 0 <= i < a.len() implies a[i] == b[i] by {
        assert((p + a + t)[p.len() + i] == a[i]);
        assert((p + b + t)[p.len() + i] == b[i]);
    }
    assert(a =~= b);
}

/// What the command line asks for; the flags begin at the named argument.
#[derive(Clone, Copy, PartialEq, Eq, Debug, Structural)]
pub enum Command {
    Up { flags_from: usize },
    Stop { flags_from: usize },
    Help,
}

/// The command that the first argument names. Without one, or with a flag in its
/// place, it is `up`, and all arguments are flags.
pub open spec fn command_of(args: Seq<String>) -> Command {
    if args.len() == 0 {
        Command::Up { flags_from: 0 }
    } else {
        let a = args[0]@;
        if a == "stop"@ {
            Command::Stop { flags_from: 1 }
        } else if a == "up"@ {
            Command::Up { flags_from: 1 }
        } else if a == "-h"@ || a == "--help"@ || a == "help"@ {
            Command::Help
        } else {
            Command::Up { flags_from: 0 }
        }
    }
}

/// Reads the command off the command line.
pub fn command(args: &Vec<String>) -> (c: Command)
    ensures
        c == command_of(args@),
{
    if args.len() == 0 {
        return Command::Up { flags_from: 0 };
    }
    let a = args[0].as_str();
    if same_text(a, "stop") {
        Command::Stop { flags_from: 1 }
    } else if same_text(a, "up") {
        Command::Up { flags_from: 1 }
    } else if same_text(a, "-h") || same_text(a, "--help") || same_text(a, "help") {
        Command::Help
    } else {
        Command::Up { flags_from: 0 }
    }
}

/// One of the arguments is this flag.
pub open spec fn has_flag(flags: Seq<String>, flag: Seq<char>) -> bool {
    exists|i: int| 0 <= i < flags.len() && (#[trigger] flags[i])@ == flag
}

/// Whether one of the arguments is this flag.
pub fn any_flag(flags: &Vec<String>, flag: &str) -> (b: bool)
    ensures
        b == has_flag(flags@, flag@),
{
    let mut i: usize = 0;
    while i < flags.len()
        invariant
            i <= flags@.len(),
            forall|j: int| 0 <= j < i ==> (#[trigger] flags@[j])@ != flag@,
        decreases flags@.len() - i,
    {
        if same_text(flags[i].as_str(), flag) {
            assert(flags@[i as int]@ == flag@);
            return true;
        }
        i = i + 1;
    }
    false
}

/// How `up` runs.
#[derive(Clone, Copy, PartialEq, Eq, Debug, Structural)]
pub struct UpOptions {
    /// Start everything, then exit.
    pub detach: bool,
    /// Show each application as one of its own.
    pub multiplex: bool,
}

/// Reads the options of `up`. `env` is the value of WLMAC_MULTIPLEX, where it is set.
pub fn up(flags: &Vec<String>, env: Option<&str>) -> (o: UpOptions)
    ensures
        o.detach == (has_flag(flags@, "-d"@) || has_flag(flags@, "--detach"@)),
        o.multiplex == (has_flag(flags@, "--multiplex"@) || (env is Some && env->0@ == "1"@)),
{
    let detach: bool = any_flag(flags, "-d") || any_flag(flags, "--detach");
    let set: bool = match env {
        Some(v) => same_text(v, "1"),
        None => false,
    };
    UpOptions { detach, multiplex: any_flag(flags, "--multiplex") || set }
}

/// The port that the flags name: the first of `--port=<n>`, `--port <n>` and `-p <n>`.
pub open spec fn port_flag(flags: Seq<String>) -> Option<Seq<char>>
    decreases flags.len(),
{
    if flags.len() == 0 {
        None
    } else {
        let f = flags[0]@;
        if begins_with(f, "--port="@) {
            Some(f.skip("--port="@.len() as int))
        } else if (f == "--port"@ || f == "-p"@) && flags.len() > 1 {
            Some(flags[1]@)
        } else {
            port_flag(flags.skip(1))
        }
    }
}

/// The text of a variable, where it is set.
pub open spec fn env_text(env: Option<&str>) -> Option<Seq<char>> {
    match env {
        Some(v) => Some(v@),
        None => None,
    }
}

/// The port of an invocation.
pub open spec fn port_of(flags: Seq<String>, env: Option<Seq<char>>) -> Seq<char> {
    match port_flag(flags) {
        Some(p) => p,
        None => match env {
            Some(p) => p,
            None => "7777"@,
        },
    }
}

/// The port of this invocation: from the flags, or else `env`, the value of
/// BRIDGE_PORT, or else 7777.
pub fn parse_port(flags: &Vec<String>, env: Option<&str>) -> (r: String)
    ensures
        r@ == port_of(flags@, env_text(env)),
{
    let mut i: usize = 0;
    assert(flags@.skip(0) =~= flags@);
    while i < flags.len()
        invariant
            i <= flags@.len(),
            port_flag(flags@) == port_flag(flags@.skip(i as int)),
        decreases flags@.len() - i,
    {
        let f = flags[i].as_str();
        assert(flags@.skip(i as int)[0]@ == f@);
        if let Some(v) = strip_prefix(f, "--port=") {
            return String::from_str(v);
        }
        if same_text(f, "--port") || same_text(f, "-p") {
            if i + 1 < flags.len() {
                assert(flags@.skip(i as int)[1] == flags@[i + 1]);
                return flags[i + 1].clone();
            }
        }
        assert(flags@.skip(i as int).skip(1) =~= flags@.skip(i + 1));
        i = i + 1;
    }
    match env {
        Some(p) => String::from_str(p),
        None => String::from_str("7777"),
    }
}

/// What `stop` tears down.
#[derive(Debug)]
pub enum StopPlan {
    /// Every instance that runs.
    All,
    /// One instance.
    One { instance: Instance },
}

/// Reads what `stop` tears down: everything with `--all`, else the instance of the
/// port that `parse_port` gives.
pub fn stop(flags: &Vec<String>, env: Option<&str>) -> (p: StopPlan)
    ensures
        p is All == has_flag(flags@, "--all"@),
        p matches StopPlan::One { instance } ==> instance.port@ == port_of(flags@, env_text(env)),
{
    if any_flag(flags, "--all") {
        StopPlan::All
    } else {
        StopPlan::One { instance: Instance::new(parse_port(flags, env)) }
    }
}

/// The children of an instance in the order in which they are stopped.
pub fn stop_order() -> (r: Vec<&'static str>)
    ensures
        r@ == seq!["socat", "waypipe", "compositor"],
{
    let mut r: Vec<&'static str> = Vec::new();
    r.push("socat");
    r.push("waypipe");
    r.push("compositor");
    assert(r@ =~= seq!["socat", "waypipe", "compositor"]);
    r
}

/// The process id in a pid file; none where it holds no number.
pub fn pid_in(contents: &str) -> (r: Option<i32>)
    ensures
        r == parsed_i32(trimmed(contents@)),
{
    parse_i32(trim(contents))
}

/// The port of the instance whose compositor's pid file has this name; none where it
/// is another file.
pub fn port_of_pidfile<'a>(name: &'a str) -> (r: Option<&'a str>)
    ensures
        r is Some == (begins_with(name@, "wlmac-"@) && ends_in(
            name@.skip("wlmac-"@.len() as int),
            "-compositor.pid"@,
        )),
        r is Some ==> name@ == "wlmac-"@ + r->0@ + "-compositor.pid"@,
{
    match strip_prefix(name, "wlmac-") {
        Some(rest) => match strip_suffix(rest, "-compositor.pid") {
            Some(port) => {
                proof {
                    let a = "wlmac-"@;
                    let z = "-compositor.pid"@;
                    assert(name@ =~= name@.take(a.len() as int) + rest@);
                    assert(rest@ =~= rest@.take(rest@.len() - z.len()) + rest@.skip(
                        rest@.len() - z.len(),
                    ));
                    assert(name@ =~= a + port@ + z);
                }
                Some(port)
            },
            None => None,
        },
        None => None,
    }
}

/// The pid file that an instance writes is found again under its port.
pub proof fn lemma_pidfile_names_its_port(port: Seq<char>)
    ensures
        ({
            let name = "wlmac-"@ + port + "-compositor.pid"@;
            let rest = name.skip("wlmac-"@.len() as int);
            &&& begins_with(name, "wlmac-"@)
            &&& ends_in(rest, "-compositor.pid"@)
            &&& rest.take(rest.len() - "-compositor.pid"@.len()) == port
            &&& file_of(port, "compositor.pid"@) == "/tmp/"@ + name
        }),
{
    reveal_strlit("wlmac-");
    reveal_strlit("/tmp/wlmac-");
    reveal_strlit("/tmp/");
    reveal_strlit("-");
    reveal_strlit("compositor.pid");
    reveal_strlit("-compositor.pid");
    let a = "wlmac-"@;
    let z = "-compositor.pid"@;
    let name = a + port + z;
    let rest = name.skip(a.len() as int);
    assert(name.take(a.len() as int) =~= a);
    assert(rest =~= port + z);
    assert(rest.skip(rest.len() - z.len()) =~= z);
    assert(rest.take(rest.len() - z.len()) =~= port);
    assert("/tmp/wlmac-"@ =~= "/tmp/"@ + a);
    assert("-"@ + "compositor.pid"@ =~= z);
    assert(file_of(port, "compositor.pid"@) =~= "/tmp/"@ + name);
}

/// The lines of a text.
pub open spec fn lines(s: Seq<char>) -> Seq<Seq<char>>
    decreases s.len(),
{
    if exists|i: int| 0 <= i < s.len() && s[i] == '\n' {
        let i = s.index_of_first('\n')->0;
        if 0 <= i < s.len() {
            seq![s.take(i)] + lines(s.skip(i + 1))
        } else {
            seq![s]
        }
    } else {
        seq![s]
    }
}

/// The first place in `hay` where `needle` begins.
pub open spec fn find(hay: Seq<char>, needle: Seq<char>) -> Option<int>
    decreases hay.len(),
{
    if begins_with(hay, needle) {
        Some(0)
    } else if hay.len() == 0 {
        None
    } else {
        match find(hay.skip(1), needle) {
            Some(i) => Some(i + 1),
            None => None,
        }
    }
}

/// What a line says behind a key, without white space at the ends.
pub open spec fn value_in(line: Seq<char>, key: Seq<char>) -> Option<Seq<char>> {
    match find(line, key) {
        Some(i) => Some(trimmed(line.skip(i + key.len()))),
        None => None,
    }
}

/// What the last line with a key says behind it; `before` where no line has it.
pub open spec fn last_value(lines: Seq<Seq<char>>, key: Seq<char>, before: Seq<char>) -> Seq<char>
    decreases lines.len(),
{
    if lines.len() == 0 {
        before
    } else {
        last_value(
            lines.skip(1),
            key,
            match value_in(lines[0], key) {
                Some(v) => v,
                None => before,
            },
        )
    }
}

fn find_text(hay: &Vec<char>, needle: &Vec<char>) -> (r: Option<usize>)
    ensures
        r is Some == find(hay@, needle@) is Some,
        r is Some ==> r->0 == find(hay@, needle@)->0 && r->0 + needle@.len() <= hay@.len(),
{
    let mut i: usize = 0;
    let n: usize = hay.len();
    assert(hay@.skip(0) =~= hay@);
    while i <= n
        invariant
            i <= n + 1,
            n == hay@.len(),
            i <= n ==> (find(hay@, needle@) is Some == find(hay@.skip(i as int), needle@) is Some),
            i <= n && find(hay@, needle@) is Some ==> find(hay@, needle@)->0 == i + find(
                hay@.skip(i as int),
                needle@,
            )->0,
            i == n + 1 ==> find(hay@, needle@) is None,
        decreases n + 1 - i,
    {
        if matches_at(hay, i, needle) {
            return Some(i);
        }
        if i == n {
            return None;
        }
        assert(hay@.skip(i as int).skip(1) =~= hay@.skip(i + 1));
        i = i + 1;
    }
    None
}

fn line_value(line: &str, key: &Vec<char>) -> (r: Option<String>)
    ensures
        r is Some == value_in(line@, key@) is Some,
        r is Some ==> r->0@ == value_in(line@, key@)->0,
{
    let chars = chars_of(line);
    match find_text(&chars, key) {
        Some(i) => {
            let n: usize = chars.len();
            assert(i + key@.len() <= n);
            let rest = text_from(line, i + key.len());
            Some(String::from_str(trim(rest)))
        },
        None => None,
    }
}

/// The first place of a line break at or behind `from`.
fn line_end(chars: &Vec<char>, from: usize) -> (r: Option<usize>)
    requires
        from <= chars@.len(),
    ensures
        r is Some ==> from <= r->0 < chars@.len() && chars@[r->0 as int] == '\n' && forall|i: int|
            from <= i < r->0 ==> (#[trigger] chars@[i]) != '\n',
        r is None ==> forall|i: int| from <= i < chars@.len() ==> (#[trigger] chars@[i]) != '\n',
{
    let mut i: usize = from;
    while i < chars.len()
        invariant
            from <= i <= chars@.len(),
            forall|j: int| from <= j < i ==> (#[trigger] chars@[j]) != '\n',
        decreases chars@.len() - i,
    {
        if chars[i] == '\n' {
            return Some(i);
        }
        i = i + 1;
    }
    None
}

proof fn lemma_lines_split(s: Seq<char>, i: int)
    requires
        0 <= i < s.len(),
        s[i] == '\n',
        forall|j: int| 0 <= j < i ==> (#[trigger] s[j]) != '\n',
    ensures
        lines(s) == seq![s.take(i)] + lines(s.skip(i + 1)),
{
    let k = s.index_of_first('\n');
    s.index_of_first_ensures('\n');
    assert(s.contains('\n'));
    assert(k is Some);
    assert(k->0 == i);
}

/// What the log of a compositor announces under a key; `before` where it announces
/// nothing.
fn announced(log: &str, key: &str, before: String) -> (r: String)
    ensures
        r@ == last_value(lines(log@), key@, before@),
{
    let chars = chars_of(log);
    let needle = chars_of(key);
    let n: usize = chars.len();
    let mut acc: String = before;
    let mut from: usize = 0;
    assert(log@.skip(0) =~= log@);
    loop
        invariant
            from <= n == chars@.len(),
            chars@ == log@,
            needle@ == key@,
            last_value(lines(log@), key@, before@) == last_value(
                lines(log@.skip(from as int)),
                key@,
                acc@,
            ),
        decreases n - from,
    {
        let ghost rest = log@.skip(from as int);
        match line_end(&chars, from) {
            Some(end) => {
                let line = log.substring_char(from, end);
                proof {
                    assert forall|j: int| 0 <= j < end - from implies (#[trigger] rest[j]) != '\n' by {
                        assert(chars@[from + j] != '\n');
                    }
                    lemma_lines_split(rest, end - from);
                    assert(line@ =~= rest.take(end - from));
                    assert(rest.skip(end - from + 1) =~= log@.skip(end + 1));
                    assert(lines(rest).skip(1) =~= lines(log@.skip(end + 1)));
                    assert(lines(rest)[0] == line@);
                }
                if let Some(v) = line_value(line, &needle) {
                    acc = v;
                }
                from = end + 1;
            },
            None => {
                let line = log.substring_char(from, n);
                proof {
                    assert(line@ =~= rest);
                    assert forall|j: int| 0 <= j < rest.len() implies (#[trigger] rest[j]) != '\n' by {
                        assert(chars@[from + j] != '\n');
                    }
                    assert(lines(rest) =~= seq![rest]);
                    assert(lines(rest).skip(1) =~= Seq::<Seq<char>>::empty());
                    reveal_with_fuel(last_value, 2);
                    assert(last_value(lines(rest), key@, acc@) == match value_in(rest, key@) {
                        Some(v) => v,
                        None => acc@,
                    });
                }
                if let Some(v) = line_value(line, &needle) {
                    acc = v;
                }
                return acc;
            },
        }
    }
}

/// The socket that a compositor announced: its runtime directory and its display.
#[derive(Debug)]
pub struct Socket {
    pub runtime: String,
    pub display: String,
}

impl Socket {
    /// Nothing announced yet.
    pub fn unknown() -> (s: Self)
        ensures
            s.runtime@.len() == 0,
            s.display@.len() == 0,
    {
        Socket { runtime: String::new(), display: String::new() }
    }

    /// Both parts were announced.
    pub fn is_known(&self) -> (b: bool)
        ensures
            b == (self.runtime@.len() > 0 && self.display@.len() > 0),
    {
        self.runtime.as_str().unicode_len() > 0 && self.display.as_str().unicode_len() > 0
    }
}

/// Reads the announcements in a compositor's log, the last of each kind; what the log
/// does not announce stays as it was.
pub fn discover_socket(log: &str, before: Socket) -> (s: Socket)
    ensures
        s.runtime@ == last_value(
            lines(log@),
            "export XDG_RUNTIME_DIR="@,
            before.runtime@,
        ),
        s.display@ == last_value(lines(log@), "export WAYLAND_DISPLAY="@, before.display@),
{
    Socket {
        runtime: announced(log, "export XDG_RUNTIME_DIR=", before.runtime),
        display: announced(log, "export WAYLAND_DISPLAY=", before.display),
    }
}

/// The arguments of the waypipe client. `env` is the value of WAYPIPE_COMPRESS.
pub fn waypipe_args(inst: &Instance, env: Option<&str>) -> (r: Vec<String>)
    ensures
        r@.len() == 6,
        r@[0]@ == "-c"@,
        r@[1]@ == match env {
            Some(c) => c@,
            None => "lz4"@,
        },
        r@[2]@ == "--no-gpu"@,
        r@[3]@ == "-s"@,
        r@[4]@ == file_of(inst.port@, "waypipe-client.sock"@),
        r@[5]@ == "client"@,
{
    let mut r: Vec<String> = Vec::new();
    r.push(String::from_str("-c"));
    r.push(
        match env {
            Some(c) => String::from_str(c),
            None => String::from_str("lz4"),
        },
    );
    r.push(String::from_str("--no-gpu"));
    r.push(String::from_str("-s"));
    r.push(inst.client_sock());
    r.push(String::from_str("client"));
    r
}

/// The arguments of the TCP bridge.
pub fn socat_args(inst: &Instance) -> (r: Vec<String>)
    ensures
        r@.len() == 2,
        r@[0]@ == "TCP-LISTEN:"@ + inst.port@ + ",reuseaddr,fork,nodelay"@,
        r@[1]@ == "UNIX-CONNECT:"@ + file_of(inst.port@, "waypipe-client.sock"@),
{
    let mut listen: String = join("TCP-LISTEN:", inst.port.as_str());
    listen.append(",reuseaddr,fork,nodelay");
    let sock: String = inst.client_sock();
    let mut r: Vec<String> = Vec::new();
    r.push(listen);
    r.push(join("UNIX-CONNECT:", sock.as_str()));
    r
}

/// What a stale TCP bridge of this instance is found by.
pub fn socat_pattern(inst: &Instance) -> (r: String)
    ensures
        r@ == "socat TCP-LISTEN:"@ + inst.port@,
{
    join("socat TCP-LISTEN:", inst.port.as_str())
}

/// The build profile, by the name of the directory that the program is in.
pub fn profile_of(dir: Option<&str>) -> (r: &'static str)
    ensures
        r@ == if dir is Some && dir->0@ == "release"@ {
            "release"@
        } else {
            "debug"@
        },
{
    match dir {
        Some(d) => if same_text(d, "release") {
            "release"
        } else {
            "debug"
        },
        None => "debug",
    }
}

/// The arguments that build the compositor in the same profile and for the same
/// back-end.
pub open spec fn build_words(release: bool, rail: bool) -> Seq<&'static str> {
    let base = seq!["build", "--quiet", "--bin", "wayland-macos-core"];
    let profile = if release {
        base.push("--release")
    } else {
        base
    };
    if rail {
        profile.push("--features").push("rail")
    } else {
        profile
    }
}

/// The arguments that build the compositor.
pub fn core_build_args(release: bool, rail: bool) -> (r: Vec<&'static str>)
    ensures
        r@ == build_words(release, rail),
{
    let mut r: Vec<&'static str> = Vec::new();
    r.push("build");
    r.push("--quiet");
    r.push("--bin");
    r.push("wayland-macos-core");
    if release {
        r.push("--release");
    }
    if rail {
        r.push("--features");
        r.push("rail");
    }
    assert(r@ =~= build_words(release, rail));
    r
}

/// A file with these permission bits can be executed by someone.
pub fn is_executable(is_file: bool, mode: u32) -> (b: bool)
    ensures
        b == (is_file && mode & 0o111 != 0),
{
    is_file && mode & 0o111 != 0
}

/// The keyboard layout to use: the one that is set, unless it is empty, or else the
/// machine's own, or else "us".
pub fn keymap_layout(set: Option<&str>, own: Option<&str>) -> (r: String)
    ensures
        r@ == if set is Some && set->0@.len() > 0 {
            set->0@
        } else if own is Some {
            own->0@
        } else {
            "us"@
        },
{
    if let Some(s) = set {
        if s.unicode_len() > 0 {
            return String::from_str(s);
        }
    }
    match own {
        Some(o) => String::from_str(o),
        None => String::from_str("us"),
    }
}

/// Whether the compositor runs as a window host, and under which argument the socket
/// stands.
#[derive(Clone, Copy, PartialEq, Eq, Debug, Structural)]
pub enum HostArg {
    /// An ordinary run.
    No,
    /// A host without a socket: it cannot start.
    Missing,
    /// A host; the socket is this argument.
    At { index: usize },
}

/// `i` is the first argument that is this flag.
pub open spec fn first_flag(args: Seq<String>, flag: Seq<char>, i: int) -> bool {
    0 <= i < args.len() && args[i]@ == flag && forall|j: int|
        0 <= j < i ==> (#[trigger] args[j])@ != flag
}

/// Reads whether the compositor runs as a window host.
pub fn window_host_arg(args: &Vec<String>) -> (r: HostArg)
    ensures
        match r {
            HostArg::No => !has_flag(args@, "--window-host"@),
            HostArg::Missing => first_flag(args@, "--window-host"@, args@.len() - 1),
            HostArg::At { index } => index < args@.len() && first_flag(
                args@,
                "--window-host"@,
                index - 1,
            ),
        },
{
    let mut i: usize = 0;
    while i < args.len()
        invariant
            i <= args@.len(),
            forall|j: int| 0 <= j < i ==> (#[trigger] args@[j])@ != "--window-host"@,
        decreases args@.len() - i,
    {
        if same_text(args[i].as_str(), "--window-host") {
            if i + 1 < args.len() {
                return HostArg::At { index: i + 1 };
            }
            return HostArg::Missing;
        }
        i = i + 1;
    }
    HostArg::No
}

/// The port is the one that the flags name, in any of the three ways; a flag that names
/// none is passed over. What the environment says counts only without such a flag.
pub proof fn lemma_port_flags_win(
    flag: String,
    value: String,
    rest: Seq<String>,
    env: Option<Seq<char>>,
)
    ensures
        flag@ == "--port"@ || flag@ == "-p"@ ==> port_of(seq![flag, value] + rest, env) == value@,
        flag@ == "--port="@ + value@ ==> port_of(seq![flag] + rest, env) == value@,
        flag@ != "--port"@ && flag@ != "-p"@ && !begins_with(flag@, "--port="@) ==> port_of(
            seq![flag] + rest,
            env,
        ) == port_of(rest, env),
        env is Some ==> port_of(Seq::empty(), env) == env->0,
        env is None ==> port_of(Seq::empty(), env) == "7777"@,
{
    reveal_strlit("--port");
    reveal_strlit("-p");
    reveal_strlit("--port=");
    let two = seq![flag, value] + rest;
    assert(two[0] == flag && two[1] == value);
    let one = seq![flag] + rest;
    assert(one[0] == flag);
    assert(one.skip(1) =~= rest);
    if flag@ == "--port="@ + value@ {
        let n = "--port="@.len() as int;
        assert(flag@.take(n) =~= "--port="@);
        assert(flag@.skip(n) =~= value@);
    }
}

/// The first argument alone says what is asked for, and the flags begin behind it where it
/// is a command.
pub proof fn lemma_first_word_is_the_command(args: Seq<String>, other: Seq<String>)
    requires
        args.len() > 0,
        other.len() > 0,
        args[0] == other[0],
    ensures
        command_of(args) == command_of(other),
        command_of(args) matches Command::Stop { flags_from } ==> args[0]@ == "stop"@ && flags_from
            == 1,
        args[0]@ == "stop"@ ==> command_of(args) is Stop,
        args[0]@ == "help"@ || args[0]@ == "-h"@ || args[0]@ == "--help"@ ==> command_of(args)
            is Help,
        command_of(args) is Help ==> args[0]@ == "help"@ || args[0]@ == "-h"@ || args[0]@
            == "--help"@,
        command_of(args) matches Command::Up { flags_from } ==> (flags_from == 1) == (args[0]@
            == "up"@) && flags_from <= 1,
{
    reveal_strlit("stop");
    reveal_strlit("up");
    reveal_strlit("help");
    reveal_strlit("-h");
    reveal_strlit("--help");
    assert("stop"@.len() == 4 && "up"@.len() == 2 && "help"@.len() == 4 && "-h"@.len() == 2);
    assert("stop"@[0] == 's' && "help"@[0] == 'h' && "up"@[0] == 'u' && "-h"@[0] == '-');
}

/// What was announced last counts: a further line that announces something replaces it, and
/// one that does not leaves it.
pub proof fn lemma_last_announcement_counts(
    ls: Seq<Seq<char>>,
    line: Seq<char>,
    key: Seq<char>,
    before: Seq<char>,
)
    ensures
        last_value(ls.push(line), key, before) == match value_in(line, key) {
            Some(v) => v,
            None => last_value(ls, key, before),
        },
    decreases ls.len(),
{
    let all = ls.push(line);
    reveal_with_fuel(last_value, 2);
    if ls.len() == 0 {
        assert(all[0] == line);
        assert(all.skip(1) =~= Seq::<Seq<char>>::empty());
    } else {
        let next = match value_in(ls[0], key) {
            Some(v) => v,
            None => before,
        };
        assert(all[0] == ls[0]);
        assert(all.skip(1) =~= ls.skip(1).push(line));
        lemma_last_announcement_counts(ls.skip(1), line, key, next);
    }
}

/// What is found stands where it was found, and nowhere before.
pub proof fn lemma_found_text_is_there(hay: Seq<char>, needle: Seq<char>)
    ensures
        find(hay, needle) matches Some(i) ==> 0 <= i && i + needle.len() <= hay.len()
            && hay.subrange(i, i + needle.len()) == needle && forall|j: int|
            0 <= j < i ==> !(j + needle.len() <= hay.len() && #[trigger] hay.subrange(
                j,
                j + needle.len(),
            ) == needle),
        find(hay, needle) is None ==> forall|j: int|
            0 <= j && j + needle.len() <= hay.len() ==> #[trigger] hay.subrange(
                j,
                j + needle.len(),
            ) != needle,
    decreases hay.len(),
{
    let n = needle.len() as int;
    assert(n <= hay.len() ==> hay.take(n) =~= hay.subrange(0, n));
    if !begins_with(hay, needle) && hay.len() > 0 {
        let rest = hay.skip(1);
        lemma_found_text_is_there(rest, needle);
        assert forall|j: int| 1 <= j && j + n <= hay.len() implies #[trigger] hay.subrange(j, j + n)
            == rest.subrange(j - 1, j - 1 + n) by {
            assert(hay.subrange(j, j + n) =~= rest.subrange(j - 1, j - 1 + n));
        }
    }
}

} // verus!
