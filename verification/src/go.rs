//! Detection of a Go project: which module system file a directory holds.

use vstd::prelude::*;

verus! {

/// The version of Go that a module system file asks for.
#[derive(Clone, Copy, Debug, PartialEq, Eq, Structural)]
pub enum GoVersion {
    /// The module exists but names no version.
    Unspecified,
    /// The module names a version that cannot be provided.
    Unavailable,
    /// The module names a version that can be provided.
    Found,
}

/// Whether a byte is ASCII white space.
pub open spec fn is_space(b: u8) -> bool {
    b == 32 || (9 <= b <= 13)
}

/// Where the line that starts at `i` ends: at the next line feed, or at the
/// end of the contents.
pub open spec fn line_end(c: Seq<u8>, i: int) -> int
    decreases c.len() - i,
{
    if i < 0 || i >= c.len() || c[i] == 10 {
        i
    } else {
        line_end(c, i + 1)
    }
}

/// The first place from `i` on, before `end`, that holds no white space.
pub open spec fn after_spaces(c: Seq<u8>, i: int, end: int) -> int
    decreases end - i,
{
    if i < 0 || i >= end || end > c.len() || !is_space(c[i]) {
        i
    } else {
        after_spaces(c, i + 1, end)
    }
}

/// The first place from `i` on, before `end`, that holds white space.
pub open spec fn after_word(c: Seq<u8>, i: int, end: int) -> int
    decreases end - i,
{
    if i < 0 || i >= end || end > c.len() || is_space(c[i]) {
        i
    } else {
        after_word(c, i + 1, end)
    }
}

/// Whether the line from `i` to `end` begins, after its indentation, with
/// the letters `go`.
pub open spec fn begins_with_go(c: Seq<u8>, i: int, end: int) -> bool {
    let at = after_spaces(c, i, end);
    0 <= at && at + 2 <= end && end <= c.len() && c[at] == 103 && c[at + 1] == 111
}

/// The first line, from the one that starts at `i` on, that does not begin
/// with `go`: its start and its end.
pub open spec fn version_line(c: Seq<u8>, i: int) -> Option<(int, int)>
    decreases c.len() - i,
{
    if i < 0 || i >= c.len() {
        None
    } else {
        let end = line_end(c, i);
        if !(i <= end && begins_with_go(c, i, end)) {
            Some((i, end))
        } else if end < c.len() {
            version_line(c, end + 1)
        } else {
            None
        }
    }
}

/// The second word of the line from `i` to `end`, if it has two.
pub open spec fn second_word(c: Seq<u8>, i: int, end: int) -> Option<Seq<u8>> {
    let first = after_spaces(c, i, end);
    let gap = after_word(c, first, end);
    let second = after_spaces(c, gap, end);
    let stop = after_word(c, second, end);
    if 0 <= second < stop <= c.len() {
        Some(c.subrange(second, stop))
    } else {
        None
    }
}

/// The version that the contents name: the second word of the first line
/// that does not begin with `go`.
pub open spec fn version_of(c: Seq<u8>) -> Option<Seq<u8>> {
    match version_line(c, 0) {
        Some((i, end)) => second_word(c, i, end),
        None => None,
    }
}

fn space(b: u8) -> (out: bool)
    ensures
        out == is_space(b),
{
    b == 32 || (9 <= b && b <= 13)
}

fn find_line_end(c: &Vec<u8>, start: usize) -> (end: usize)
    requires
        start <= c.len(),
    ensures
        end == line_end(c@, start as int),
        start <= end <= c.len(),
{
    let mut i: usize = start;
    while i < c.len() && c[i] != 10
        invariant
            start <= i <= c.len(),
            line_end(c@, start as int) == line_end(c@, i as int),
        decreases c.len() - i,
    {
        i += 1;
    }
    i
}

fn skip_spaces(c: &Vec<u8>, start: usize, end: usize) -> (at: usize)
    requires
        start <= end <= c.len(),
    ensures
        at == after_spaces(c@, start as int, end as int),
        start <= at <= end,
{
    let mut i: usize = start;
    while i < end && space(c[i])
        invariant
            start <= i <= end <= c.len(),
            after_spaces(c@, start as int, end as int) == after_spaces(c@, i as int, end as int),
        decreases end - i,
    {
        i += 1;
    }
    i
}

fn skip_word(c: &Vec<u8>, start: usize, end: usize) -> (at: usize)
    requires
        start <= end <= c.len(),
    ensures
        at == after_word(c@, start as int, end as int),
        start <= at <= end,
{
    let mut i: usize = start;
    while i < end && !space(c[i])
        invariant
            start <= i <= end <= c.len(),
            after_word(c@, start as int, end as int) == after_word(c@, i as int, end as int),
        decreases end - i,
    {
        i += 1;
    }
    i
}

impl GoVersion {
    /// The version that the contents of a module system file ask for. No
    /// version is looked up yet: every file counts as naming none.
    pub fn from_module_system_contents(contents: &Vec<u8>) -> (out: GoVersion)
        ensures
            out == GoVersion::Unspecified,
    {
        let version = GoVersion::Unspecified;
        if GoVersion::get_version_from_contents(contents).is_none() {
            return version;
        }
        version
    }

    /// The version that the contents name: the second word of the first
    /// line that does not begin with `go`, if there is such a line and it
    /// has two words.
    pub fn get_version_from_contents(contents: &Vec<u8>) -> (out: Option<Vec<u8>>)
        ensures
            match out {
                Some(v) => version_of(contents@) == Some(v@),
                None => version_of(contents@) is None,
            },
    {
        let mut start: usize = 0;
        while start < contents.len()
            invariant
                start <= contents.len(),
                version_line(contents@, 0) == version_line(contents@, start as int),
            decreases contents.len() - start,
        {
            let end = find_line_end(contents, start);
            let first = skip_spaces(contents, start, end);
            if end - first >= 2 && contents[first] == 103 && contents[first + 1] == 111 {
                if end == contents.len() {
                    return None;
                }
                start = end + 1;
            } else {
                let gap = skip_word(contents, first, end);
                let second = skip_spaces(contents, gap, end);
                let stop = skip_word(contents, second, end);
                if second < stop {
                    let mut word: Vec<u8> = Vec::new();
                    let mut i: usize = second;
                    while i < stop
                        invariant
                            second <= i <= stop <= contents.len(),
                            word@ == contents@.subrange(second as int, i as int),
                        decreases stop - i,
                    {
                        word.push(contents[i]);
                        i += 1;
                        assert(contents@.subrange(second as int, i as int) =~= contents@.subrange(
                            second as int,
                            i - 1,
                        ).push(contents@[i - 1]));
                    }
                    return Some(word);
                }
                return None;
            }
        }
        None
    }
}

/// A Go module file.
#[derive(Clone, Copy, Debug, PartialEq, Eq, Structural)]
pub struct GoModule {
    pub version: GoVersion,
}

/// A Go workspace file.
#[derive(Clone, Copy, Debug, PartialEq, Eq, Structural)]
pub struct GoWorkspace {
    pub version: GoVersion,
}

/// The module system files of Go.
#[derive(Clone, Copy, Debug, PartialEq, Eq, Structural)]
pub enum GoModuleSystemKind {
    Module(GoModule),
    Workspace(GoWorkspace),
}

/// The name of a module file: `go.mod`.
pub open spec fn module_filename() -> Seq<u8> {
    seq![103u8, 111u8, 46u8, 109u8, 111u8, 100u8]
}

/// The name of a workspace file: `go.work`.
pub open spec fn workspace_filename() -> Seq<u8> {
    seq![103u8, 111u8, 46u8, 119u8, 111u8, 114u8, 107u8]
}

impl GoModule {
    /// The module that a file with these contents declares.
    pub fn new(module_contents: &Vec<u8>) -> (out: GoModule)
        ensures
            out.version == GoVersion::Unspecified,
    {
        GoModule { version: GoVersion::from_module_system_contents(module_contents) }
    }

    /// The module, where the directory holds a module file; `contents` is
    /// what that file holds, if it is there.
    pub fn try_new(contents: Option<&Vec<u8>>) -> (out: Option<GoModule>)
        ensures
            contents is Some <==> out is Some,
            out is Some ==> out->Some_0.version == GoVersion::Unspecified,
    {
        match contents {
            Some(c) => Some(GoModule::new(c)),
            None => None,
        }
    }

    /// The name of the file that declares a module.
    pub fn get_filename(&self) -> (out: Vec<u8>)
        ensures
            out@ == module_filename(),
    {
        let out: Vec<u8> = vec![103u8, 111u8, 46u8, 109u8, 111u8, 100u8];
        assert(out@ =~= module_filename());
        out
    }

    /// The version of Go that the file asks for.
    pub fn get_version(&self) -> (out: GoVersion)
        ensures
            out == self.version,
    {
        self.version
    }
}

impl GoWorkspace {
    /// The workspace that a file with these contents declares.
    pub fn new(workspace_contents: &Vec<u8>) -> (out: GoWorkspace)
        ensures
            out.version == GoVersion::Unspecified,
    {
        GoWorkspace { version: GoVersion::from_module_system_contents(workspace_contents) }
    }

    /// The workspace, where the directory holds a workspace file; `contents`
    /// is what that file holds, if it is there.
    pub fn try_new(contents: Option<&Vec<u8>>) -> (out: Option<GoWorkspace>)
        ensures
            contents is Some <==> out is Some,
            out is Some ==> out->Some_0.version == GoVersion::Unspecified,
    {
        match contents {
            Some(c) => Some(GoWorkspace::new(c)),
            None => None,
        }
    }

    /// The name of the file that declares a workspace.
    pub fn get_filename(&self) -> (out: Vec<u8>)
        ensures
            out@ == workspace_filename(),
    {
        let out: Vec<u8> = vec![103u8, 111u8, 46u8, 119u8, 111u8, 114u8, 107u8];
        assert(out@ =~= workspace_filename());
        out
    }

    /// The version of Go that the file asks for.
    pub fn get_version(&self) -> (out: GoVersion)
        ensures
            out == self.version,
    {
        self.version
    }
}

/// The module system of a directory, given which of the two files it
/// holds. A workspace file spans several module files, so it goes first.
pub open spec fn detected(has_workspace: bool, has_module: bool) -> Option<GoModuleSystemKind> {
    if has_workspace {
        Some(GoModuleSystemKind::Workspace(GoWorkspace { version: GoVersion::Unspecified }))
    } else if has_module {
        Some(GoModuleSystemKind::Module(GoModule { version: GoVersion::Unspecified }))
    } else {
        None
    }
}

/// What was found of Go in a directory.
#[derive(Clone, Copy, Debug, PartialEq, Eq, Structural)]
pub struct Go {
    pub module_system: Option<GoModuleSystemKind>,
}

impl Go {
    /// Looks at a directory: `go_work` and `go_mod` are the contents of its
    /// workspace file and of its module file, where it holds them.
    pub fn new(go_work: Option<&Vec<u8>>, go_mod: Option<&Vec<u8>>) -> (out: Go)
        ensures
            out.module_system == detected(go_work is Some, go_mod is Some),
    {
        Go { module_system: Go::detect_module_system(go_work, go_mod) }
    }

    /// The module system of the directory, the workspace file first.
    pub fn detect_module_system(go_work: Option<&Vec<u8>>, go_mod: Option<&Vec<u8>>) -> (out:
        Option<GoModuleSystemKind>)
        ensures
            out == detected(go_work is Some, go_mod is Some),
    {
        if let Some(workspace) = GoWorkspace::try_new(go_work) {
            return Some(GoModuleSystemKind::Workspace(workspace));
        }
        if let Some(module) = GoModule::try_new(go_mod) {
            return Some(GoModuleSystemKind::Module(module));
        }
        None
    }

    /// Whether a module system was found.
    pub fn should_run(&self) -> (out: bool)
        ensures
            out == self.module_system is Some,
    {
        self.module_system.is_some()
    }
}

} // verus!
