//! The search for an interpreter of the version that a build asks for.
//!
//! The search is a state machine. [`Search::request`] says what the caller has to
//! do next: look up a program, or run a script; [`Search::step`] takes the answer.

use std::path::PathBuf;

use vstd::prelude::*;

use crate::config;
use crate::config::ConfigView;
use crate::config::InterpreterConfig;
use crate::link;
use crate::text;
use crate::version;
use crate::version::PythonVersion;
use crate::version::VersionView;

verus! {

/// Picks the first of the paths, one for each directory of the search path, at
/// which there is a file.
pub fn canonicalize_executable(full_paths: Vec<PathBuf>, is_file: &Vec<bool>) -> (r: Option<
    PathBuf,
>)
    requires
        full_paths.len() == is_file.len(),
    ensures
        match r {
            Some(path) => exists|i: int|
                0 <= i < full_paths.len() && is_file@[i] && path == #[trigger] full_paths@[i] && (
                forall|j: int| 0 <= j < i ==> !#[trigger] is_file@[j]),
            None => forall|i: int| 0 <= i < full_paths.len() ==> !#[trigger] is_file@[i],
        },
{
    let mut paths: Vec<PathBuf> = full_paths;
    let mut i: usize = 0;
    while i < is_file.len()
        invariant
            paths@ == full_paths@,
            paths.len() == is_file.len(),
            i <= is_file.len(),
            forall|j: int| 0 <= j < i ==> !#[trigger] is_file@[j],
        decreases is_file.len() - i,
    {
        if is_file[i] {
            return Some(paths.swap_remove(i));
        }
        i += 1;
    }
    None
}

/// Why a search cannot go on.
#[derive(Debug)]
pub enum Abort {
    /// The program that was asked for by name is not on the search path.
    NotFound(String),
    /// The interpreter could not be asked for its kind.
    KindQuery(String),
    /// The interpreter's answer on its kind is neither yes nor no.
    KindReply(String),
    /// What the interpreter printed about itself cannot be read.
    ConfigReply(String),
}

/// An [`Abort`] in terms of sequences.
pub enum AbortView {
    NotFound(Seq<char>),
    KindQuery(Seq<char>),
    KindReply(Seq<char>),
    ConfigReply(Seq<char>),
}

impl View for Abort {
    type V = AbortView;

    open spec fn view(&self) -> AbortView {
        match self {
            Abort::NotFound(s) => AbortView::NotFound(s@),
            Abort::KindQuery(s) => AbortView::KindQuery(s@),
            Abort::KindReply(s) => AbortView::KindReply(s@),
            Abort::ConfigReply(s) => AbortView::ConfigReply(s@),
        }
    }
}

/// How far a search has come.
#[derive(Debug)]
pub enum Stage {
    /// A program is looked up.
    Locate(String),
    /// The interpreter at the path is asked for its kind.
    AskKind(PathBuf),
    /// The interpreter at the path, PyPy or not, is asked about itself.
    AskConfig(PathBuf, bool),
    /// The interpreter at the path, PyPy or not, which printed the text about
    /// itself, is asked for its ABI tag.
    AskAbi(PathBuf, bool, String),
    /// The search is over.
    Done(Result<InterpreterConfig, String>),
    /// The search cannot go on.
    Aborted(Abort),
}

/// A [`Stage`] in terms of sequences.
pub enum StageView {
    Locate(Seq<char>),
    AskKind(PathBuf),
    AskConfig(PathBuf, bool),
    AskAbi(PathBuf, bool, Seq<char>),
    Done(Result<ConfigView, Seq<char>>),
    Aborted(AbortView),
}

impl View for Stage {
    type V = StageView;

    open spec fn view(&self) -> StageView {
        match self {
            Stage::Locate(name) => StageView::Locate(name@),
            Stage::AskKind(path) => StageView::AskKind(*path),
            Stage::AskConfig(path, pypy) => StageView::AskConfig(*path, *pypy),
            Stage::AskAbi(path, pypy, out) => StageView::AskAbi(*path, *pypy, out@),
            Stage::Done(r) => StageView::Done(config::config_result_view(*r)),
            Stage::Aborted(a) => StageView::Aborted(a@),
        }
    }
}

/// A search for an interpreter.
#[derive(Debug)]
pub struct Search {
    /// The version that is asked for.
    pub expected: PythonVersion,
    /// The program that is asked for by name, if any.
    pub named: Option<String>,
    /// The programs that are still to be tried, the next one last.
    pub untried: Vec<String>,
    pub stage: Stage,
}

/// A [`Search`] in terms of sequences; the next program to be tried comes first.
pub struct SearchView {
    pub expected: VersionView,
    pub named: Option<Seq<char>>,
    pub untried: Seq<Seq<char>>,
    pub stage: StageView,
}

impl View for Search {
    type V = SearchView;

    open spec fn view(&self) -> SearchView {
        SearchView {
            expected: self.expected@,
            named: version::option_view(self.named),
            untried: text::views(self.untried@).reverse(),
            stage: self.stage@,
        }
    }
}

/// What the caller has to do next.
#[derive(Debug)]
pub enum Request<'a> {
    /// Look the program up on the search path and answer with [`Reply::Located`].
    Locate(&'a str),
    /// Run the script with the interpreter and answer with [`Reply::Ran`].
    Run(&'a PathBuf, &'static str),
    /// Nothing: the search is over or cannot go on.
    Stop,
}

/// A [`Request`] in terms of sequences.
pub enum RequestView {
    Locate(Seq<char>),
    Run(PathBuf, Seq<char>),
    Stop,
}

impl<'a> View for Request<'a> {
    type V = RequestView;

    open spec fn view(&self) -> RequestView {
        match self {
            Request::Locate(name) => RequestView::Locate(name@),
            Request::Run(path, script) => RequestView::Run(**path, script@),
            Request::Stop => RequestView::Stop,
        }
    }
}

/// What came of a request.
#[derive(Debug)]
pub enum Reply {
    /// Where the program is, if it is on the search path.
    Located(Option<PathBuf>),
    /// What the script printed, or why it failed.
    Ran(Result<String, String>),
}

/// A [`Reply`] in terms of sequences.
pub enum ReplyView {
    Located(Option<PathBuf>),
    Ran(Result<Seq<char>, Seq<char>>),
}

impl View for Reply {
    type V = ReplyView;

    open spec fn view(&self) -> ReplyView {
        match self {
            Reply::Located(path) => ReplyView::Located(*path),
            Reply::Ran(r) => ReplyView::Ran(link::text_result_view(*r)),
        }
    }
}

/// The script that asks an interpreter of the given kind about itself.
pub open spec fn config_script(pypy: bool) -> Seq<char> {
    if pypy {
        config::PYPY_SCRIPT@
    } else {
        config::CPYTHON_SCRIPT@
    }
}

/// The name that interpreters of the kind that is asked for go by; CPython where
/// no kind is asked for.
pub open spec fn binary_name(kind: Option<Seq<char>>) -> Result<Seq<char>, Seq<char>> {
    match kind {
        Some(k) => if k == "pypy"@ {
            Ok("pypy"@)
        } else if k == "cpython"@ {
            Ok("python"@)
        } else {
            Err("Unsupported interpreter "@ + k)
        },
        None => Ok("python"@),
    }
}

/// The programs to try, in order: the bare name, the name with the major version
/// and, where a minor version is asked for, the name with both.
pub open spec fn candidates(name: Seq<char>, v: VersionView) -> Seq<Seq<char>> {
    seq![name, name + text::decimal(v.major as nat)] + match v.minor {
        Some(minor) => seq![
            name + text::decimal(v.major as nat) + "."@ + text::decimal(minor as nat),
        ],
        None => Seq::empty(),
    }
}

/// The state in which a search starts.
pub open spec fn start(expected: VersionView, named: Option<Seq<char>>) -> SearchView {
    match named {
        Some(name) => SearchView {
            expected,
            named,
            untried: Seq::empty(),
            stage: StageView::Locate(name),
        },
        None => match binary_name(expected.kind) {
            Ok(name) => SearchView {
                expected,
                named,
                untried: candidates(name, expected).skip(1),
                stage: StageView::Locate(candidates(name, expected)[0]),
            },
            Err(e) => SearchView {
                expected,
                named,
                untried: Seq::empty(),
                stage: StageView::Done(Err(e)),
            },
        },
    }
}

/// The complaint about a program that was asked for by name and is of another
/// version.
pub open spec fn mismatch(name: Seq<char>, expected: VersionView, found: VersionView) -> Seq<char> {
    "Unsupported python version in PYTHON_SYS_EXECUTABLE="@ + name + "\n\tmin version "@
        + expected.text() + " != found "@ + found.text()
}

impl SearchView {
    /// What has to be done next.
    pub open spec fn request(self) -> RequestView {
        match self.stage {
            StageView::Locate(name) => RequestView::Locate(name),
            StageView::AskKind(path) => RequestView::Run(path, config::KIND_SCRIPT@),
            StageView::AskConfig(path, pypy) => RequestView::Run(path, config_script(pypy)),
            StageView::AskAbi(path, _, _) => RequestView::Run(path, config::GET_ABI_TAG@),
            StageView::Done(_) => RequestView::Stop,
            StageView::Aborted(_) => RequestView::Stop,
        }
    }

    /// The search at another stage.
    pub open spec fn at(self, stage: StageView) -> SearchView {
        SearchView { stage, ..self }
    }

    /// The search with the next program, or its end where none is left.
    pub open spec fn next(self) -> SearchView {
        if self.untried.len() == 0 {
            self.at(StageView::Done(Err("No python interpreter found"@)))
        } else {
            SearchView {
                untried: self.untried.skip(1),
                stage: StageView::Locate(self.untried[0]),
                ..self
            }
        }
    }

    /// The search once an interpreter is described: a program that was asked for
    /// by name has to be of the right version, any other is passed over where it
    /// is not.
    pub open spec fn judge(self, described: Result<ConfigView, Seq<char>>) -> SearchView {
        match described {
            Err(e) => self.at(StageView::Done(Err(e))),
            Ok(c) => if self.expected.admits(c.version) {
                self.at(StageView::Done(Ok(c)))
            } else {
                match self.named {
                    Some(name) => self.at(
                        StageView::Done(Err(mismatch(name, self.expected, c.version))),
                    ),
                    None => self.next(),
                }
            },
        }
    }

    /// The search after a reply. A reply to another request changes nothing.
    pub open spec fn step(self, reply: ReplyView) -> SearchView {
        match (self.stage, reply) {
            (StageView::Locate(_), ReplyView::Located(Some(path))) => self.at(
                StageView::AskKind(path),
            ),
            (StageView::Locate(name), ReplyView::Located(None)) => if self.named is Some {
                self.at(StageView::Aborted(AbortView::NotFound(name)))
            } else {
                self.next()
            },
            (StageView::AskKind(path), ReplyView::Ran(Ok(out))) => match config::kind_answer(out) {
                Some(pypy) => self.at(StageView::AskConfig(path, pypy)),
                None => self.at(StageView::Aborted(AbortView::KindReply(out))),
            },
            (StageView::AskKind(_), ReplyView::Ran(Err(e))) => self.at(
                StageView::Aborted(AbortView::KindQuery(e)),
            ),
            (StageView::AskConfig(path, pypy), ReplyView::Ran(Ok(out))) => self.at(
                StageView::AskAbi(path, pypy, out),
            ),
            (StageView::AskConfig(_, _), ReplyView::Ran(Err(e))) => self.at(
                StageView::Done(Err(e)),
            ),
            (StageView::AskAbi(path, pypy, out), ReplyView::Ran(Ok(abi))) => if config::reply_fits(
                pypy,
                out,
            ) {
                self.judge(config::reply_config(path, pypy, out, abi))
            } else {
                self.at(StageView::Aborted(AbortView::ConfigReply(out)))
            },
            (StageView::AskAbi(_, _, _), ReplyView::Ran(Err(e))) => self.at(
                StageView::Done(Err(e)),
            ),
            _ => self,
        }
    }
}

/// Starts the search for an interpreter of the version `expected_version`. A
/// program that is asked for by name, `interpreter_from_env`, is taken if it is of
/// that version; otherwise the bare name, the name with the major version and the
/// name with both versions are tried in order until one is of that version.
pub fn find_interpreter(expected_version: PythonVersion, interpreter_from_env: Option<String>) -> (r:
    Search)
    ensures
        r@ == start(expected_version@, version::option_view(interpreter_from_env)),
{
    let mut untried: Vec<String> = Vec::new();
    assert(text::views(untried@).reverse() =~= Seq::<Seq<char>>::empty());
    if let Some(name) = interpreter_from_env {
        let stage: Stage = Stage::Locate(name.clone());
        return Search { expected: expected_version, named: Some(name), untried, stage };
    }
    let pypy: bool = match &expected_version.kind {
        Some(kind) => if text::same_text(kind.as_str(), "pypy") {
            true
        } else if text::same_text(kind.as_str(), "cpython") {
            false
        } else {
            let e: String = link::join("Unsupported interpreter ", kind.as_str());
            return Search {
                expected: expected_version,
                named: None,
                untried,
                stage: Stage::Done(Err(e)),
            };
        },
        None => false,
    };
    let name: &str = if pypy {
        "pypy"
    } else {
        "python"
    };
    let with_major: String = link::join(
        name,
        text::decimal_text(expected_version.major as usize).as_str(),
    );
    if let Some(minor) = expected_version.minor {
        let mut with_both: String = link::join(with_major.as_str(), ".");
        with_both.append(text::decimal_text(minor as usize).as_str());
        untried.push(with_both);
    }
    untried.push(with_major);
    assert(text::views(untried@).reverse() =~= candidates(name@, expected_version@).skip(1));
    Search {
        expected: expected_version,
        named: None,
        untried,
        stage: Stage::Locate(name.to_owned()),
    }
}

impl Search {
    /// What the caller has to do next.
    pub fn request(&self) -> (r: Request<'_>)
        ensures
            r@ == self@.request(),
    {
        match &self.stage {
            Stage::Locate(name) => Request::Locate(name.as_str()),
            Stage::AskKind(path) => Request::Run(path, config::KIND_SCRIPT),
            Stage::AskConfig(path, pypy) => if *pypy {
                Request::Run(path, config::PYPY_SCRIPT)
            } else {
                Request::Run(path, config::CPYTHON_SCRIPT)
            },
            Stage::AskAbi(path, _, _) => Request::Run(path, config::GET_ABI_TAG),
            Stage::Done(_) => Request::Stop,
            Stage::Aborted(_) => Request::Stop,
        }
    }

    /// The search with the next program.
    fn next(expected: PythonVersion, named: Option<String>, untried: Vec<String>) -> (r: Search)
        ensures
            forall|stage: StageView|
                r@ == #[trigger] (SearchView {
                    expected: expected@,
                    named: version::option_view(named),
                    untried: text::views(untried@).reverse(),
                    stage,
                }).next(),
    {
        let mut untried: Vec<String> = untried;
        let ghost before = text::views(untried@);
        match untried.pop() {
            Some(name) => {
                assert(before =~= text::views(untried@).push(name@));
                assert(before.reverse().skip(1) =~= text::views(untried@).reverse());
                Search { expected, named, untried, stage: Stage::Locate(name) }
            },
            None => Search {
                expected,
                named,
                untried,
                stage: Stage::Done(Err("No python interpreter found".to_owned())),
            },
        }
    }

    /// Goes on with the answer to the request.
    pub fn step(self, reply: Reply) -> (r: Search)
        ensures
            r@ == self@.step(reply@),
    {
        let Search { expected, named, untried, stage } = self;
        let stage: Stage = match (stage, reply) {
            (Stage::Locate(_), Reply::Located(Some(path))) => Stage::AskKind(path),
            (Stage::Locate(name), Reply::Located(None)) => if named.is_some() {
                Stage::Aborted(Abort::NotFound(name))
            } else {
                return Search::next(expected, named, untried);
            },
            (Stage::AskKind(path), Reply::Ran(Ok(out))) => match config::read_kind(out.as_str()) {
                Some(pypy) => Stage::AskConfig(path, pypy),
                None => Stage::Aborted(Abort::KindReply(out)),
            },
            (Stage::AskKind(_), Reply::Ran(Err(e))) => Stage::Aborted(Abort::KindQuery(e)),
            (Stage::AskConfig(path, pypy), Reply::Ran(Ok(out))) => Stage::AskAbi(path, pypy, out),
            (Stage::AskConfig(_, _), Reply::Ran(Err(e))) => Stage::Done(Err(e)),
            (Stage::AskAbi(path, pypy, out), Reply::Ran(Ok(abi))) => if config::is_readable(
                pypy,
                out.as_str(),
            ) {
                match InterpreterConfig::new(path, pypy, out.as_str(), abi.as_str()) {
                    Err(e) => Stage::Done(Err(e)),
                    Ok(c) => if expected == c.version {
                        Stage::Done(Ok(c))
                    } else {
                        match &named {
                            Some(name) => {
                                let mut e: String = link::join(
                                    "Unsupported python version in PYTHON_SYS_EXECUTABLE=",
                                    name.as_str(),
                                );
                                e.append("\n\tmin version ");
                                e.append(expected.to_string().as_str());
                                e.append(" != found ");
                                e.append(c.version.to_string().as_str());
                                Stage::Done(Err(e))
                            },
                            None => return Search::next(expected, named, untried),
                        }
                    },
                }
            } else {
                Stage::Aborted(Abort::ConfigReply(out))
            },
            (Stage::AskAbi(_, _, _), Reply::Ran(Err(e))) => Stage::Done(Err(e)),
            (stage, _) => stage,
        };
        Search { expected, named, untried, stage }
    }
}

/// A machine as a search sees it: where each program is, and what each script
/// prints with each interpreter.
pub struct World {
    pub locate: spec_fn(Seq<char>) -> Option<PathBuf>,
    pub run: spec_fn(PathBuf, Seq<char>) -> Result<Seq<char>, Seq<char>>,
}

/// What comes of asking an interpreter about itself.
pub enum Described {
    Known(Result<ConfigView, Seq<char>>),
    Aborted(AbortView),
}

impl World {
    /// What comes of a request.
    pub open spec fn reply(self, request: RequestView) -> ReplyView {
        match request {
            RequestView::Locate(name) => ReplyView::Located((self.locate)(name)),
            RequestView::Run(path, script) => ReplyView::Ran((self.run)(path, script)),
            RequestView::Stop => ReplyView::Located(None),
        }
    }

    /// A search after at most `n` requests.
    pub open spec fn drive(self, s: SearchView, n: nat) -> SearchView
        decreases n,
    {
        if n == 0 || s.request() is Stop {
            s
        } else {
            self.drive(s.step(self.reply(s.request())), (n - 1) as nat)
        }
    }

    /// What the interpreter at `path` says of itself.
    pub open spec fn describe(self, path: PathBuf) -> Described {
        match (self.run)(path, config::KIND_SCRIPT@) {
            Err(e) => Described::Aborted(AbortView::KindQuery(e)),
            Ok(kind) => match config::kind_answer(kind) {
                None => Described::Aborted(AbortView::KindReply(kind)),
                Some(pypy) => match (
                    (self.run)(path, config_script(pypy)),
                    (self.run)(path, config::GET_ABI_TAG@),
                ) {
                    (Err(e), _) => Described::Known(Err(e)),
                    (_, Err(e)) => Described::Known(Err(e)),
                    (Ok(out), Ok(abi)) => if config::reply_fits(pypy, out) {
                        Described::Known(config::reply_config(path, pypy, out, abi))
                    } else {
                        Described::Aborted(AbortView::ConfigReply(out))
                    },
                },
            },
        }
    }

    /// How a search ends that tries the programs `names` in order: with the first
    /// that is there and of the right version, unless one before it fails.
    pub open spec fn first_of(self, expected: VersionView, names: Seq<Seq<char>>) -> StageView
        decreases names.len(),
    {
        if names.len() == 0 {
            StageView::Done(Err("No python interpreter found"@))
        } else {
            match (self.locate)(names[0]) {
                None => self.first_of(expected, names.skip(1)),
                Some(path) => match self.describe(path) {
                    Described::Aborted(a) => StageView::Aborted(a),
                    Described::Known(Err(e)) => StageView::Done(Err(e)),
                    Described::Known(Ok(c)) => if expected.admits(c.version) {
                        StageView::Done(Ok(c))
                    } else {
                        self.first_of(expected, names.skip(1))
                    },
                },
            }
        }
    }

    /// How a search ends for a program that is asked for by name.
    pub open spec fn exactly(self, expected: VersionView, name: Seq<char>) -> StageView {
        match (self.locate)(name) {
            None => StageView::Aborted(AbortView::NotFound(name)),
            Some(path) => match self.describe(path) {
                Described::Aborted(a) => StageView::Aborted(a),
                Described::Known(Err(e)) => StageView::Done(Err(e)),
                Described::Known(Ok(c)) => if expected.admits(c.version) {
                    StageView::Done(Ok(c))
                } else {
                    StageView::Done(Err(mismatch(name, expected, c.version)))
                },
            },
        }
    }

    /// How a search ends.
    pub open spec fn outcome(self, expected: VersionView, named: Option<Seq<char>>) -> StageView {
        match named {
            Some(name) => self.exactly(expected, name),
            None => match binary_name(expected.kind) {
                Ok(name) => self.first_of(expected, candidates(name, expected)),
                Err(e) => StageView::Done(Err(e)),
            },
        }
    }
}

/// Asking a located interpreter about itself takes three requests.
proof fn lemma_describe(world: World, s: SearchView, path: PathBuf, n: nat)
    requires
        s.stage == StageView::AskKind(path),
        n >= 3,
    ensures
        match world.describe(path) {
            Described::Aborted(a) => world.drive(s, n) == s.at(StageView::Aborted(a)),
            Described::Known(r) => exists|m: nat|
                n - 3 <= m && world.drive(s, n) == #[trigger] world.drive(s.judge(r), m),
        },
{
    reveal_with_fuel(World::drive, 5);
    match world.describe(path) {
        Described::Known(r) => {
            assert(world.drive(s, n) == world.drive(s.judge(r), (n - 3) as nat) || world.drive(s, n)
                == world.drive(s.judge(r), (n - 2) as nat));
        },
        Described::Aborted(_) => {},
    }
}

/// A search through programs ends as [`World::first_of`] says.
proof fn lemma_search_through(world: World, s: SearchView, name: Seq<char>, n: nat)
    requires
        s.named is None,
        s.stage == StageView::Locate(name),
        n >= 4 * (1 + s.untried.len()),
    ensures
        world.drive(s, n).stage == world.first_of(s.expected, seq![name] + s.untried),
    decreases s.untried.len(),
{
    let names = seq![name] + s.untried;
    assert(names.skip(1) =~= s.untried);
    assert(names[0] == name);
    let rest = s.next();
    if s.untried.len() > 0 {
        assert(s.untried =~= seq![s.untried[0]] + s.untried.skip(1));
    } else {
        assert(world.first_of(s.expected, s.untried) == StageView::Done(
            Err("No python interpreter found"@),
        ));
    }
    match (world.locate)(name) {
        None => {
            assert(s.step(world.reply(s.request())) == rest);
            if s.untried.len() > 0 {
                lemma_search_through(world, rest, s.untried[0], (n - 1) as nat);
            }
        },
        Some(path) => {
            let t = s.at(StageView::AskKind(path));
            assert(s.step(world.reply(s.request())) == t);
            lemma_describe(world, t, path, (n - 1) as nat);
            if let Described::Known(r) = world.describe(path) {
                let m = choose|m: nat|
                    n - 4 <= m && world.drive(t, (n - 1) as nat) == #[trigger] world.drive(
                        t.judge(r),
                        m,
                    );
                if let Ok(c) = r {
                    if !s.expected.admits(c.version) {
                        assert(t.judge(r) == rest);
                        if s.untried.len() > 0 {
                            lemma_search_through(world, rest, s.untried[0], m);
                        }
                    }
                }
            }
        },
    }
}

/// A search ends after at most twelve requests, and it ends with the first program
/// that is there and of the version that is asked for; a program that is asked for
/// by name is the only one tried.
pub proof fn law_search_finds_first_match(
    world: World,
    expected: VersionView,
    named: Option<Seq<char>>,
    n: nat,
)
    requires
        n >= 12,
    ensures
        world.drive(start(expected, named), n).stage == world.outcome(expected, named),
        world.drive(start(expected, named), n).request() is Stop,
{
    let s = start(expected, named);
    match named {
        Some(name) => {
            if let Some(path) = (world.locate)(name) {
                let t = s.at(StageView::AskKind(path));
                assert(s.step(world.reply(s.request())) == t);
                lemma_describe(world, t, path, (n - 1) as nat);
            } else {
                reveal_with_fuel(World::drive, 3);
            }
        },
        None => {
            if let Ok(name) = binary_name(expected.kind) {
                let all = candidates(name, expected);
                assert(all =~= seq![all[0]] + all.skip(1));
                lemma_search_through(world, s, all[0], n);
                lemma_first_of_stops(world, expected, all);
            }
        },
    }
}

proof fn lemma_first_of_stops(world: World, expected: VersionView, names: Seq<Seq<char>>)
    ensures
        world.first_of(expected, names) is Done || world.first_of(expected, names) is Aborted,
        world.first_of(expected, names) matches StageView::Done(Ok(c)) ==> expected.admits(
            c.version,
        ),
    decreases names.len(),
{
    if names.len() > 0 {
        lemma_first_of_stops(world, expected, names.skip(1));
    }
}

/// An interpreter that a search ends with is of the version that is asked for.
pub proof fn law_found_interpreter_is_expected(
    world: World,
    expected: VersionView,
    named: Option<Seq<char>>,
)
    ensures
        world.outcome(expected, named) matches StageView::Done(Ok(c)) ==> expected.admits(
            c.version,
        ),
{
    if let Ok(name) = binary_name(expected.kind) {
        lemma_first_of_stops(world, expected, candidates(name, expected));
    }
}

/// An interpreter that describes itself is taken for PyPy exactly where it says
/// that it is.
pub proof fn law_described_kind_is_answered(world: World, path: PathBuf)
    ensures
        world.describe(path) matches Described::Known(Ok(c)) ==> (world.run)(
            path,
            config::KIND_SCRIPT@,
        ) is Ok && config::kind_answer((world.run)(path, config::KIND_SCRIPT@)->Ok_0) == Some(
            c.is_pypy(),
        ),
{
    if let Ok(kind) = (world.run)(path, config::KIND_SCRIPT@) {
        if let Some(pypy) = config::kind_answer(kind) {
            if let (Ok(out), Ok(abi)) = (
                (world.run)(path, config_script(pypy)),
                (world.run)(path, config::GET_ABI_TAG@),
            ) {
                config::law_kind_is_kept(path, pypy, out, abi);
            }
        }
    }
}

/// A CPython interpreter that goes by the name `python` and is of the version that
/// is asked for is found, and described as it printed about itself.
pub proof fn law_cpython_is_detected(
    world: World,
    expected: VersionView,
    c: ConfigView,
    minor: u8,
    shared: Seq<char>,
)
    requires
        expected.kind is None || expected.kind == Some("cpython"@),
        expected.admits(c.version),
        c.version.minor == Some(minor),
        c.version.kind == Some("cpython"@),
        c.enable_shared == (shared == "1"@),
        text::is_line(c.libpath),
        text::is_line(shared),
        text::is_line(c.ld_version),
        text::is_line(c.exec_prefix),
        c.abi_version.len() > 0 ==> !text::is_white_space(c.abi_version.last()),
        (world.locate)("python"@) == Some(c.path),
        (world.run)(c.path, config::KIND_SCRIPT@) == Ok::<Seq<char>, Seq<char>>("False\n"@),
        (world.run)(c.path, config::CPYTHON_SCRIPT@) == Ok::<Seq<char>, Seq<char>>(
            config::cpython_reply(
                c.version.major,
                minor,
                c.libpath,
                shared,
                c.ld_version,
                c.exec_prefix,
            ),
        ),
        (world.run)(c.path, config::GET_ABI_TAG@) == Ok::<Seq<char>, Seq<char>>(
            c.abi_version.push('\n'),
        ),
    ensures
        world.outcome(expected, None) == StageView::Done(Ok(c)),
        forall|n: nat|
            n >= 12 ==> (#[trigger] world.drive(start(expected, None), n)).stage == StageView::Done(
                Ok(c),
            ),
{
    assert forall|n: nat| n >= 12 implies (#[trigger] world.drive(start(expected, None), n)).stage
        == world.outcome(expected, None) by {
        law_search_finds_first_match(world, expected, None, n);
    }
    law_default_kind_is_cpython();
    config::lemma_kind_is_read_back();
    config::law_cpython_reply_is_read_back(
        c.path,
        c.version.major,
        minor,
        c.libpath,
        shared,
        c.ld_version,
        c.exec_prefix,
        c.abi_version,
    );
    assert(world.describe(c.path) == Described::Known(Ok(c)));
    assert(candidates("python"@, expected)[0] == "python"@);
}

/// A PyPy interpreter that is asked for by name and is of the version that is
/// asked for is found, and described as it printed about itself.
pub proof fn law_named_pypy_is_detected(
    world: World,
    expected: VersionView,
    c: ConfigView,
    minor: u8,
    name: Seq<char>,
)
    requires
        expected.admits(c.version),
        c.version.minor == Some(minor),
        c.version.kind == Some("pypy"@),
        c.enable_shared,
        c.ld_version == c.version.text(),
        text::is_line(c.libpath),
        text::is_line(c.exec_prefix),
        c.abi_version.len() > 0 ==> !text::is_white_space(c.abi_version.last()),
        (world.locate)(name) == Some(c.path),
        (world.run)(c.path, config::KIND_SCRIPT@) == Ok::<Seq<char>, Seq<char>>("True\n"@),
        (world.run)(c.path, config::PYPY_SCRIPT@) == Ok::<Seq<char>, Seq<char>>(
            config::pypy_reply(c.version.major, minor, c.libpath, c.exec_prefix),
        ),
        (world.run)(c.path, config::GET_ABI_TAG@) == Ok::<Seq<char>, Seq<char>>(
            c.abi_version.push('\n'),
        ),
    ensures
        world.outcome(expected, Some(name)) == StageView::Done(Ok(c)),
        forall|n: nat|
            n >= 12 ==> (#[trigger] world.drive(start(expected, Some(name)), n)).stage
                == StageView::Done(Ok(c)),
{
    assert forall|n: nat|
        n >= 12 implies (#[trigger] world.drive(start(expected, Some(name)), n)).stage
        == world.outcome(expected, Some(name)) by {
        law_search_finds_first_match(world, expected, Some(name), n);
    }
    config::lemma_kind_is_read_back();
    config::law_pypy_reply_is_read_back(
        c.path,
        c.version.major,
        minor,
        c.libpath,
        c.exec_prefix,
        c.abi_version,
    );
    assert(world.describe(c.path) == Described::Known(Ok(c)));
}

/// Where no kind is asked for, the same programs are tried as for CPython.
pub proof fn law_default_kind_is_cpython()
    ensures
        binary_name(None) == binary_name(Some("cpython"@)),
        binary_name(Some("cpython"@)) == Ok::<Seq<char>, Seq<char>>("python"@),
{
    reveal_strlit("pypy");
    reveal_strlit("cpython");
    assert("pypy"@.len() != "cpython"@.len());
}

/// Once a search has stopped no reply changes it.
pub proof fn law_stopped_search_stays(s: SearchView, reply: ReplyView)
    requires
        s.request() is Stop,
    ensures
        s.step(reply) == s,
{
}

impl World {
    /// Whether the program `name` is there and describes itself as `c`.
    pub open spec fn is_there(self, name: Seq<char>, c: ConfigView) -> bool {
        (self.locate)(name) is Some && self.describe((self.locate)(name)->0) == Described::Known(
            Ok(c),
        )
    }

    /// Whether the program `name` is absent or describes itself as another major
    /// version, or as another minor version than one that is asked for.
    pub open spec fn is_no_match(self, name: Seq<char>, v: VersionView) -> bool {
        (self.locate)(name) is None || exists|c: ConfigView| #[trigger]
            self.is_there(name, c) && (c.version.major != v.major || (v.minor is Some
                && c.version.minor != v.minor))
    }

    /// Whether nothing can be learnt from the program `name`, for the reason told by
    /// `end`.
    pub open spec fn is_broken(self, name: Seq<char>, end: StageView) -> bool {
        (self.locate)(name) is Some && match self.describe((self.locate)(name)->0) {
            Described::Aborted(a) => end == StageView::Aborted(a),
            Described::Known(Err(e)) => end == StageView::Done(Err(e)),
            Described::Known(Ok(_)) => false,
        }
    }

    /// Whether a search that reaches the program `name` ends there with `end`: the
    /// program matches, or it is broken.
    pub open spec fn ends_at(self, name: Seq<char>, v: VersionView, end: StageView) -> bool {
        self.is_broken(name, end) || exists|c: ConfigView| #[trigger]
            self.is_there(name, c) && end == StageView::Done(Ok(c)) && c.version.major == v.major && (
            v.minor is None || c.version.minor == v.minor)
    }
}

/// A search for PyPy tries the programs `pypy`, `pypy` with the major version, and
/// `pypy` with both versions, in this order: it ends at the first one that matches or
/// is broken, and finds nothing where none does.
pub proof fn law_pypy_programs_in_order(
    world: World,
    expected: VersionView,
    minor: u8,
    n: nat,
    end: StageView,
)
    requires
        expected.kind == Some("pypy"@),
        expected.minor == Some(minor),
        n >= 12,
    ensures
        ({
            let bare = "pypy"@;
            let with_major = "pypy"@ + text::decimal(expected.major as nat);
            let with_both = "pypy"@ + text::decimal(expected.major as nat) + "."@ + text::decimal(
                minor as nat,
            );
            let stage = world.drive(start(expected, None), n).stage;
            &&& world.ends_at(bare, expected, end) ==> stage == end
            &&& world.is_no_match(bare, expected) && world.ends_at(with_major, expected, end)
                ==> stage == end
            &&& world.is_no_match(bare, expected) && world.is_no_match(with_major, expected)
                && world.ends_at(with_both, expected, end) ==> stage == end
            &&& world.is_no_match(bare, expected) && world.is_no_match(with_major, expected)
                && world.is_no_match(with_both, expected) ==> stage == StageView::Done(
                Err("No python interpreter found"@),
            )
        }),
{
    lemma_three_programs(world, expected, minor, "pypy"@, n, end);
}

/// A search for CPython, or for no kind in particular, tries `python` in the same
/// way.
pub proof fn law_cpython_programs_in_order(
    world: World,
    expected: VersionView,
    minor: u8,
    n: nat,
    end: StageView,
)
    requires
        expected.kind is None || expected.kind == Some("cpython"@),
        expected.minor == Some(minor),
        n >= 12,
    ensures
        ({
            let bare = "python"@;
            let with_major = "python"@ + text::decimal(expected.major as nat);
            let with_both = "python"@ + text::decimal(expected.major as nat) + "."@ + text::decimal(
                minor as nat,
            );
            let stage = world.drive(start(expected, None), n).stage;
            &&& world.ends_at(bare, expected, end) ==> stage == end
            &&& world.is_no_match(bare, expected) && world.ends_at(with_major, expected, end)
                ==> stage == end
            &&& world.is_no_match(bare, expected) && world.is_no_match(with_major, expected)
                && world.ends_at(with_both, expected, end) ==> stage == end
            &&& world.is_no_match(bare, expected) && world.is_no_match(with_major, expected)
                && world.is_no_match(with_both, expected) ==> stage == StageView::Done(
                Err("No python interpreter found"@),
            )
        }),
{
    law_default_kind_is_cpython();
    lemma_three_programs(world, expected, minor, "python"@, n, end);
}

/// Where any minor version will do, the bare name and the name with the major version
/// are tried, in this order and no other program.
pub proof fn law_programs_for_any_minor(
    world: World,
    expected: VersionView,
    name: Seq<char>,
    n: nat,
    end: StageView,
)
    requires
        expected.kind == Some("pypy"@) ==> name == "pypy"@,
        expected.kind == Some("cpython"@) ==> name == "python"@,
        expected.kind is None ==> name == "python"@,
        expected.kind == Some("pypy"@) || expected.kind == Some("cpython"@) || expected.kind is None,
        expected.minor is None,
        n >= 12,
    ensures
        ({
            let with_major = name + text::decimal(expected.major as nat);
            let stage = world.drive(start(expected, None), n).stage;
            &&& world.ends_at(name, expected, end) ==> stage == end
            &&& world.is_no_match(name, expected) && world.ends_at(with_major, expected, end)
                ==> stage == end
            &&& world.is_no_match(name, expected) && world.is_no_match(with_major, expected)
                ==> stage == StageView::Done(Err("No python interpreter found"@))
        }),
{
    law_default_kind_is_cpython();
    law_search_finds_first_match(world, expected, None, n);
    let with_major = name + text::decimal(expected.major as nat);
    let all = candidates(name, expected);
    assert(all =~= seq![name, with_major]);
    assert(all.skip(1) =~= seq![with_major]);
    assert(all.skip(1).skip(1) =~= Seq::<Seq<char>>::empty());
    lemma_first_of_one(world, expected, all, end);
    lemma_first_of_one(world, expected, all.skip(1), end);
}

/// How one program counts in a search through several.
proof fn lemma_first_of_one(
    world: World,
    expected: VersionView,
    names: Seq<Seq<char>>,
    end: StageView,
)
    requires
        names.len() > 0,
    ensures
        world.ends_at(names[0], expected, end) ==> world.first_of(expected, names) == end,
        world.is_no_match(names[0], expected) ==> world.first_of(expected, names) == world.first_of(
            expected,
            names.skip(1),
        ),
{
}

/// A search for a version with a minor tries three programs.
proof fn lemma_three_programs(
    world: World,
    expected: VersionView,
    minor: u8,
    name: Seq<char>,
    n: nat,
    end: StageView,
)
    requires
        binary_name(expected.kind) == Ok::<Seq<char>, Seq<char>>(name),
        expected.minor == Some(minor),
        n >= 12,
    ensures
        ({
            let with_major = name + text::decimal(expected.major as nat);
            let with_both = name + text::decimal(expected.major as nat) + "."@ + text::decimal(
                minor as nat,
            );
            let stage = world.drive(start(expected, None), n).stage;
            &&& world.ends_at(name, expected, end) ==> stage == end
            &&& world.is_no_match(name, expected) && world.ends_at(with_major, expected, end)
                ==> stage == end
            &&& world.is_no_match(name, expected) && world.is_no_match(with_major, expected)
                && world.ends_at(with_both, expected, end) ==> stage == end
            &&& world.is_no_match(name, expected) && world.is_no_match(with_major, expected)
                && world.is_no_match(with_both, expected) ==> stage == StageView::Done(
                Err("No python interpreter found"@),
            )
        }),
{
    law_search_finds_first_match(world, expected, None, n);
    let with_major = name + text::decimal(expected.major as nat);
    let with_both = name + text::decimal(expected.major as nat) + "."@ + text::decimal(
        minor as nat,
    );
    let all = candidates(name, expected);
    assert(all =~= seq![name, with_major, with_both]);
    assert(all.skip(1) =~= seq![with_major, with_both]);
    assert(all.skip(1).skip(1) =~= seq![with_both]);
    assert(all.skip(1).skip(1).skip(1) =~= Seq::<Seq<char>>::empty());
    lemma_first_of_one(world, expected, all, end);
    lemma_first_of_one(world, expected, all.skip(1), end);
    lemma_first_of_one(world, expected, all.skip(1).skip(1), end);
}

/// An interpreter that is reached by its name with the major version alone, or with
/// both versions alone, is found on a machine that has no other.
pub proof fn law_versioned_program_is_found(
    world: World,
    expected: VersionView,
    minor: u8,
    name: Seq<char>,
    program: Seq<char>,
    c: ConfigView,
    n: nat,
)
    requires
        (expected.kind == Some("pypy"@) && name == "pypy"@) || (expected.kind == Some("cpython"@)
            && name == "python"@) || (expected.kind is None && name == "python"@),
        expected.minor == Some(minor),
        c.version.major == expected.major,
        c.version.minor == Some(minor),
        program == name || program == name + text::decimal(expected.major as nat) || program == name
            + text::decimal(expected.major as nat) + "."@ + text::decimal(minor as nat),
        world.is_there(program, c),
        forall|other: Seq<char>| other != program ==> (#[trigger] (world.locate)(other)) is None,
        n >= 12,
    ensures
        world.drive(start(expected, None), n).stage == StageView::Done(Ok(c)),
{
    let end = StageView::Done(Ok(c));
    let with_major = name + text::decimal(expected.major as nat);
    let with_both = name + text::decimal(expected.major as nat) + "."@ + text::decimal(
        minor as nat,
    );
    text::lemma_decimal_denotes(expected.major as nat);
    text::lemma_decimal_denotes(minor as nat);
    assert(name.len() < with_major.len() < with_both.len());
    reveal_strlit("pypy");
    reveal_strlit("cpython");
    assert("pypy"@.len() != "cpython"@.len());
    assert(program != name ==> (world.locate)(name) is None);
    assert(program != with_major ==> (world.locate)(with_major) is None);
    assert(world.ends_at(program, expected, end));
    if expected.kind == Some("pypy"@) {
        law_pypy_programs_in_order(world, expected, minor, n, end);
    } else {
        law_cpython_programs_in_order(world, expected, minor, n, end);
    }
}

/// No program is tried where the kind is neither PyPy nor CPython, unless one is
/// asked for by name.
pub proof fn law_other_kinds_are_refused(
    world: World,
    expected: VersionView,
    kind: Seq<char>,
    n: nat,
)
    requires
        expected.kind == Some(kind),
        kind != "pypy"@,
        kind != "cpython"@,
    ensures
        world.drive(start(expected, None), n).stage == StageView::Done(
            Err("Unsupported interpreter "@ + kind),
        ),
{
}

/// A program that is asked for by name is taken where it matches, whatever kind is
/// asked for, and no other is tried: its absence, its failure or its version ends the
/// search.
pub proof fn law_named_program_is_the_only_one(
    world: World,
    expected: VersionView,
    name: Seq<char>,
    n: nat,
    end: StageView,
)
    requires
        n >= 12,
    ensures
        ({
            let stage = world.drive(start(expected, Some(name)), n).stage;
            &&& world.ends_at(name, expected, end) ==> stage == end
            &&& (world.locate)(name) is None ==> stage == StageView::Aborted(
                AbortView::NotFound(name),
            )
        }),
{
    law_search_finds_first_match(world, expected, Some(name), n);
}

/// The complaint about a program that is asked for by name and does not match tells
/// its name, the version that is asked for and the one that was found, with a star for
/// any minor version.
pub proof fn law_named_program_of_another_version(
    world: World,
    expected: VersionView,
    name: Seq<char>,
    c: ConfigView,
    minor: u8,
    n: nat,
)
    requires
        n >= 12,
        world.is_there(name, c),
        c.version.minor == Some(minor),
        c.version.major != expected.major || (expected.minor is Some && expected.minor != Some(
            minor,
        )),
    ensures
        ({
            let stage = world.drive(start(expected, Some(name)), n).stage;
            let front = "Unsupported python version in PYTHON_SYS_EXECUTABLE="@ + name
                + "\n\tmin version "@ + text::decimal(expected.major as nat) + "."@;
            let back = " != found "@ + text::decimal(c.version.major as nat) + "."@ + text::decimal(
                minor as nat,
            );
            &&& expected.minor is None ==> stage == StageView::Done(Err(front + "*"@ + back))
            &&& forall|m: u8|
                expected.minor == Some(m) ==> stage == StageView::Done(
                    Err(front + #[trigger] text::decimal(m as nat) + back),
                )
        }),
{
    law_search_finds_first_match(world, expected, Some(name), n);
    let stage = world.drive(start(expected, Some(name)), n).stage;
    assert(stage == StageView::Done(Err(mismatch(name, expected, c.version))));
    let front = "Unsupported python version in PYTHON_SYS_EXECUTABLE="@ + name
        + "\n\tmin version "@ + text::decimal(expected.major as nat) + "."@;
    let back = " != found "@ + text::decimal(c.version.major as nat) + "."@ + text::decimal(
        minor as nat,
    );
    let m = match expected.minor {
        Some(m) => text::decimal(m as nat),
        None => "*"@,
    };
    assert(mismatch(name, expected, c.version) =~= front + m + back);
}

/// What is found is of the version that is asked for: of its major version and, where
/// a minor version is asked for, of that one.
pub proof fn law_search_finds_the_version(
    world: World,
    expected: VersionView,
    named: Option<Seq<char>>,
    c: ConfigView,
    n: nat,
)
    requires
        n >= 12,
        world.drive(start(expected, named), n).stage == StageView::Done(Ok(c)),
    ensures
        c.version.major == expected.major,
        expected.minor is Some ==> c.version.minor == expected.minor,
{
    law_search_finds_first_match(world, expected, named, n);
    law_found_interpreter_is_expected(world, expected, named);
}

/// Two machines on which a program, asked for by name, is in the same place and
/// prints the same are told apart by no search for it.
pub proof fn law_other_programs_play_no_part(
    a: World,
    b: World,
    expected: VersionView,
    name: Seq<char>,
    n: nat,
)
    requires
        (a.locate)(name) == (b.locate)(name),
        forall|path: PathBuf, script: Seq<char>| #[trigger]
            (a.run)(path, script) == (b.run)(path, script),
        n >= 12,
    ensures
        a.drive(start(expected, Some(name)), n).stage == b.drive(start(expected, Some(name)), n).stage,
{
    law_search_finds_first_match(a, expected, Some(name), n);
    law_search_finds_first_match(b, expected, Some(name), n);
    if let Some(path) = (a.locate)(name) {
        assert((a.run)(path, config::KIND_SCRIPT@) == (b.run)(path, config::KIND_SCRIPT@));
        assert((a.run)(path, config_script(true)) == (b.run)(path, config_script(true)));
        assert((a.run)(path, config_script(false)) == (b.run)(path, config_script(false)));
        assert((a.run)(path, config::GET_ABI_TAG@) == (b.run)(path, config::GET_ABI_TAG@));
    }
}

/// An interpreter is asked for its kind first, then about itself by the script for
/// that kind, and last for its ABI. What it would print for the script of the other
/// kind plays no part.
pub proof fn law_interpreter_is_asked_by_its_kind(
    world: World,
    path: PathBuf,
    kind: Seq<char>,
    pypy: bool,
    out: Seq<char>,
    abi: Seq<char>,
)
    requires
        (world.run)(path, "import sys; print('__pypy__' in sys.builtin_module_names)"@) == Ok::<
            Seq<char>,
            Seq<char>,
        >(kind),
        config::kind_answer(kind) == Some(pypy),
        pypy ==> (world.run)(path, config::PYPY_SCRIPT@) == Ok::<Seq<char>, Seq<char>>(out),
        !pypy ==> (world.run)(path, config::CPYTHON_SCRIPT@) == Ok::<Seq<char>, Seq<char>>(out),
        (world.run)(path, config::GET_ABI_TAG@) == Ok::<Seq<char>, Seq<char>>(abi),
    ensures
        config::reply_fits(pypy, out) ==> world.describe(path) == Described::Known(
            config::reply_config(path, pypy, out, abi),
        ),
        !config::reply_fits(pypy, out) ==> world.describe(path) == Described::Aborted(
            AbortView::ConfigReply(out),
        ),
{
}

/// A failure ends the questions: one on the kind, or an answer to it that is neither
/// yes nor no, leaves no way on, and one of the later scripts is the answer.
pub proof fn law_failed_script_ends_the_questions(
    world: World,
    path: PathBuf,
    kind: Seq<char>,
    e: Seq<char>,
)
    ensures
        ({
            let asked = (world.run)(
                path,
                "import sys; print('__pypy__' in sys.builtin_module_names)"@,
            );
            let script = if config::kind_answer(kind) == Some(true) {
                config::PYPY_SCRIPT@
            } else {
                config::CPYTHON_SCRIPT@
            };
            &&& asked == Err::<Seq<char>, Seq<char>>(e) ==> world.describe(path)
                == Described::Aborted(AbortView::KindQuery(e))
            &&& asked == Ok::<Seq<char>, Seq<char>>(kind) && config::kind_answer(kind) is None
                ==> world.describe(path) == Described::Aborted(AbortView::KindReply(kind))
            &&& asked == Ok::<Seq<char>, Seq<char>>(kind) && config::kind_answer(kind) is Some && (
            world.run)(path, script) == Err::<Seq<char>, Seq<char>>(e) ==> world.describe(path)
                == Described::Known(Err(e))
            &&& asked == Ok::<Seq<char>, Seq<char>>(kind) && config::kind_answer(kind) is Some && (
            world.run)(path, script) is Ok && (world.run)(path, config::GET_ABI_TAG@) == Err::<
                Seq<char>,
                Seq<char>,
            >(e) ==> world.describe(path) == Described::Known(Err(e))
        }),
{
}

/// A reply that does not answer the request changes nothing.
pub proof fn law_other_replies_change_nothing(s: SearchView, reply: ReplyView)
    requires
        s.request() is Locate ==> reply is Ran,
        s.request() is Run ==> reply is Located,
    ensures
        s.step(reply) == s,
{
}

/// What is asked for and by what name never changes in a search, whatever the replies.
pub proof fn law_demand_is_kept(s: SearchView, reply: ReplyView)
    ensures
        s.step(reply).expected == s.expected,
        s.step(reply).named == s.named,
{
}

} // verus!
