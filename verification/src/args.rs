//! The command-line arguments of the typst.ts CLI, and what is derived from
//! them: the workspace root, the main file, the output directory and the
//! diagnostics handler.
use vstd::prelude::*;

use crate::diagnostics;
use crate::diagnostics::DiagnosticHandler;
use crate::paths::{
    components,
    is_absolute,
    join,
    lemma_components_of_relative,
    lemma_components_of_rooted,
    lemma_join_components,
    lemma_named_segments_plain,
    lemma_strip_joined,
    lemma_views_push,
    named,
    parent,
    parent_dir,
    is_root_component,
    path_components,
    path_is_absolute,
    path_join,
    path_strip_prefix,
    render,
    render_components,
    root_dir,
    segments,
    strip_prefix,
    views,
};
use crate::vpath::{lemma_virtual_keeps_plain, rooted_virtual_path, virtual_path};

verus! {

broadcast use vstd::string::group_string_axioms;

/// Shared arguments for font related commands.
#[derive(Debug, Clone, Default)]
pub struct FontArgs {
    /// Additional directories to search for fonts.
    pub paths: Vec<String>,
}

/// The main file of a compilation.
#[derive(Debug)]
pub enum MainId {
    /// The document read from standard input, held in memory.
    MemoryMain,
    /// A file of the workspace at `root`, at the rooted virtual path `vpath`.
    Workspace { root: String, vpath: String },
}

/// A main file, its strings taken by their characters.
pub enum MainIdView {
    MemoryMain,
    Workspace { root: Seq<char>, vpath: Seq<char> },
}

impl View for MainId {
    type V = MainIdView;

    open spec fn view(&self) -> MainIdView {
        match self {
            MainId::MemoryMain => MainIdView::MemoryMain,
            MainId::Workspace { root, vpath } => MainIdView::Workspace {
                root: root@,
                vpath: vpath@,
            },
        }
    }
}

impl Clone for MainId {
    fn clone(&self) -> (r: Self)
        ensures
            r == *self,
    {
        match self {
            MainId::MemoryMain => MainId::MemoryMain,
            MainId::Workspace { root, vpath } => MainId::Workspace {
                root: root.clone(),
                vpath: vpath.clone(),
            },
        }
    }
}

/// Why the main file or the output directory cannot be found.
#[derive(Debug)]
pub enum ArgsError {
    /// The entry file lies outside the workspace directory.
    EntryOutsideWorkspace { workspace_dir: String },
    /// The entry file has no parent directory to write output into.
    EntryWithoutParent,
}

/// An error, its strings taken by their characters.
pub enum ArgsErrorView {
    EntryOutsideWorkspace(Seq<char>),
    EntryWithoutParent,
}

impl View for ArgsError {
    type V = ArgsErrorView;

    open spec fn view(&self) -> ArgsErrorView {
        match self {
            ArgsError::EntryOutsideWorkspace { workspace_dir } => ArgsErrorView::EntryOutsideWorkspace(
                workspace_dir@,
            ),
            ArgsError::EntryWithoutParent => ArgsErrorView::EntryWithoutParent,
        }
    }
}

/// The message printed for an error.
pub open spec fn error_message(e: ArgsErrorView) -> Seq<char> {
    match e {
        ArgsErrorView::EntryOutsideWorkspace(dir) => "entry file path must be in workspace directory: "@
            + dir + seq!['\n'],
        ArgsErrorView::EntryWithoutParent => "entry file has no parent"@,
    }
}

impl ArgsError {
    /// The message that reports this error.
    pub fn message(&self) -> (m: String)
        ensures
            m@ == error_message(self@),
    {
        match self {
            ArgsError::EntryOutsideWorkspace { workspace_dir } => {
                let mut m = String::from_str("entry file path must be in workspace directory: ");
                m.append(workspace_dir.as_str());
                m.append("\n");
                proof {
                    reveal_strlit("\n");
                    assert("\n"@ =~= seq!['\n']);
                }
                m
            },
            ArgsError::EntryWithoutParent => String::from_str("entry file has no parent"),
        }
    }
}

/// Arguments of a single compilation, and what is derived from them once.
#[derive(Debug, Clone, Default)]
pub struct CompileOnceArgs {
    /// Shared arguments for font related commands.
    pub font: FontArgs,
    /// Path to the typst workspace.
    pub workspace: String,
    /// Path to the input typst file; `-` reads the input from standard input.
    pub entry: String,
    /// String key-value pairs visible through `sys.inputs`.
    pub inputs: Vec<(String, String)>,
    /// Output directory; empty for the directory of the entry file.
    pub output: String,
    /// Fonts embedded by the caller.
    pub extra_embedded_fonts: Vec<Vec<u8>>,
    /// The workspace root, once resolved.
    pub parsed_entry: Option<String>,
    /// The main file, once resolved.
    pub main_id: Option<MainId>,
    /// The output directory, once resolved.
    pub parsed_output: Option<String>,
}

/// Whether an entry argument designates standard input.
pub open spec fn designates_stdin(entry: Seq<char>) -> bool {
    entry == seq!['-']
}

/// The workspace root: the workspace itself if it is absolute, else the
/// workspace under the current directory.
pub open spec fn resolve_root(workspace: Seq<char>, cwd: Seq<char>) -> Seq<char> {
    if is_absolute(workspace) {
        workspace
    } else {
        join(cwd, workspace)
    }
}

/// The workspace root that `root` gives: the one resolved before, if any.
pub open spec fn root_of(args: CompileOnceArgs, cwd: Seq<char>) -> Seq<char> {
    match args.parsed_entry {
        Some(p) => p@,
        None => resolve_root(args.workspace@, cwd),
    }
}

/// The entry file as an absolute path.
pub open spec fn absolute_entry(entry: Seq<char>, cwd: Seq<char>) -> Seq<char> {
    if is_absolute(entry) {
        entry
    } else {
        join(cwd, entry)
    }
}

/// The main file for `entry` in the workspace at `root`.
pub open spec fn main_id_from(entry: Seq<char>, root: Seq<char>, cwd: Seq<char>) -> Result<
    MainIdView,
    ArgsErrorView,
> {
    if designates_stdin(entry) {
        Ok(MainIdView::MemoryMain)
    } else {
        match strip_prefix(absolute_entry(entry, cwd), root) {
            Some(rel) => Ok(MainIdView::Workspace { root, vpath: rooted_virtual_path(rel) }),
            None => Err(ArgsErrorView::EntryOutsideWorkspace(root)),
        }
    }
}

/// The main file that `main_id` gives: the one resolved before, if any.
pub open spec fn main_id_of(args: CompileOnceArgs, cwd: Seq<char>) -> Result<
    MainIdView,
    ArgsErrorView,
> {
    match args.main_id {
        Some(m) => Ok(m@),
        None => main_id_from(args.entry@, root_of(args, cwd), cwd),
    }
}

/// The directory that holds the main file at the rooted virtual path `vpath`
/// of the workspace at `root`: the components of `root`, followed by those of
/// `vpath` below its root but for the last one. There is none when `vpath`
/// has no component below its root.
pub open spec fn entry_directory(root: Seq<char>, vpath: Seq<char>) -> Option<Seq<char>> {
    let vc = components(vpath);
    if vc.len() == 0 || vc.last() == root_dir() {
        None
    } else {
        let start: int = if vc[0] == root_dir() {
            1
        } else {
            0
        };
        Some(render(components(root) + vc.subrange(start, vc.len() - 1)))
    }
}

/// The output directory for a main file: `output` if it is given; else the
/// current directory for standard input; else the directory that holds the
/// main file in its workspace.
///
/// A main file held in memory while the entry is not `-` (which only a caller
/// that sets `main_id` or `entry` by hand can bring about) also gets the
/// current directory. The in-memory entry's own virtual path is a constant
/// defined outside this crate and not known here, so the directory above it
/// cannot be given; the current directory stands in for it, as it does for
/// standard input.
pub open spec fn output_dir_from(
    output: Seq<char>,
    stdin: bool,
    cwd: Seq<char>,
    input: MainIdView,
) -> Result<Seq<char>, ArgsErrorView> {
    if output.len() == 0 {
        if stdin {
            Ok(cwd)
        } else {
            match input {
                MainIdView::Workspace { root, vpath } => match entry_directory(root, vpath) {
                    Some(d) => Ok(d),
                    None => Err(ArgsErrorView::EntryWithoutParent),
                },
                MainIdView::MemoryMain => Ok(cwd),
            }
        }
    } else {
        Ok(output)
    }
}

/// The output directory that `output_dir` gives: the one resolved before, if
/// any.
pub open spec fn output_dir_of(args: CompileOnceArgs, cwd: Seq<char>) -> Result<
    Seq<char>,
    ArgsErrorView,
> {
    match args.parsed_output {
        Some(o) => Ok(o@),
        None => match main_id_of(args, cwd) {
            Ok(m) => output_dir_from(args.output@, designates_stdin(args.entry@), cwd, m),
            Err(e) => Err(e),
        },
    }
}

/// A resolved main file held in memory belongs to an entry read from standard
/// input.
pub open spec fn main_id_cache_fits(args: CompileOnceArgs) -> bool {
    (args.main_id matches Some(m) && m is MemoryMain) ==> designates_stdin(args.entry@)
}

/// `new` holds the same arguments as `old`; only what is resolved may differ.
pub open spec fn same_arguments(old: CompileOnceArgs, new: CompileOnceArgs) -> bool {
    &&& new.font == old.font
    &&& new.workspace == old.workspace
    &&& new.entry == old.entry
    &&& new.inputs == old.inputs
    &&& new.output == old.output
    &&& new.extra_embedded_fonts == old.extra_embedded_fonts
}

/// The state after `main_id`: the root is resolved if it was needed, and the
/// main file is kept when it was found.
pub open spec fn after_main_id(old: CompileOnceArgs, new: CompileOnceArgs, cwd: Seq<char>) -> bool {
    &&& same_arguments(old, new)
    &&& new.parsed_output == old.parsed_output
    &&& if old.main_id is None && !designates_stdin(old.entry@) {
        new.parsed_entry matches Some(p) && p@ == root_of(old, cwd)
    } else {
        new.parsed_entry == old.parsed_entry
    }
    &&& match main_id_of(old, cwd) {
        Ok(m) => new.main_id matches Some(x) && x@ == m,
        Err(_) => new.main_id is None,
    }
}

/// The state after `output_dir`: as after `main_id` if the directory was not
/// resolved before, and the directory is kept when it was found.
pub open spec fn after_output_dir(old: CompileOnceArgs, new: CompileOnceArgs, cwd: Seq<char>) -> bool {
    if old.parsed_output is Some {
        new == old
    } else {
        &&& after_main_id(old, CompileOnceArgs { parsed_output: None, ..new }, cwd)
        &&& match output_dir_of(old, cwd) {
            Ok(o) => new.parsed_output matches Some(x) && x@ == o,
            Err(_) => new.parsed_output is None,
        }
    }
}

/// A main-file result, its strings taken by their characters.
pub open spec fn main_id_result_view(r: Result<MainId, ArgsError>) -> Result<
    MainIdView,
    ArgsErrorView,
> {
    match r {
        Ok(m) => Ok(m@),
        Err(e) => Err(e@),
    }
}

/// An output-directory result, its strings taken by their characters.
pub open spec fn dir_result_view(r: Result<String, ArgsError>) -> Result<Seq<char>, ArgsErrorView> {
    match r {
        Ok(d) => Ok(d@),
        Err(e) => Err(e@),
    }
}

/// Whether `entry` designates standard input.
pub fn entry_is_stdin(entry: &str) -> (b: bool)
    ensures
        b == designates_stdin(entry@),
{
    if entry.unicode_len() == 1 && entry.get_char(0) == '-' {
        assert(entry@ =~= seq!['-']);
        true
    } else {
        false
    }
}

/// The directory that holds the main file at `vpath` in the workspace at
/// `root`, if `vpath` has a component below its root.
pub fn path_entry_directory(root: &str, vpath: &str) -> (r: Option<String>)
    ensures
        r matches Some(d) ==> entry_directory(root@, vpath@) == Some(d@),
        r is None ==> entry_directory(root@, vpath@) is None,
{
    let vc = path_components(vpath);
    let n = vc.len();
    if n == 0 || is_root_component(&vc[n - 1]) {
        return None;
    }
    let start: usize = if is_root_component(&vc[0]) {
        1
    } else {
        0
    };
    let mut parts = path_components(root);
    let ghost lead = views(parts@);
    let mut k = start;
    assert(views(vc@).subrange(start as int, start as int) =~= Seq::<Seq<char>>::empty());
    assert(lead + Seq::<Seq<char>>::empty() =~= lead);
    while k < n - 1
        invariant
            start <= k <= n - 1,
            n == vc@.len(),
            views(parts@) == lead + views(vc@).subrange(start as int, k as int),
        decreases n - 1 - k,
    {
        let c = vc[k].clone();
        proof {
            lemma_views_push(parts@, c);
            assert(views(vc@).subrange(start as int, k + 1) =~= views(vc@).subrange(
                start as int,
                k as int,
            ).push(c@));
            assert(lead + views(vc@).subrange(start as int, k + 1) =~= (lead + views(vc@).subrange(
                start as int,
                k as int,
            )).push(c@));
        }
        parts.push(c);
        k = k + 1;
    }
    proof {
        assert(views(parts@).subrange(0, parts@.len() as int) =~= views(parts@));
    }
    Some(render_components(&parts, 0, parts.len()))
}

/// The output directory for the main file `input`: `output` if it is given;
/// else the current directory for standard input or a main file held in
/// memory; else the directory that holds the main file in its workspace.
pub fn output_dir_for(output: &str, stdin: bool, cwd: &str, input: &MainId) -> (r: Result<
    String,
    ArgsError,
>)
    ensures
        dir_result_view(r) == output_dir_from(output@, stdin, cwd@, input@),
{
    if output.unicode_len() == 0 {
        if stdin {
            Ok(String::from_str(cwd))
        } else {
            match input {
                MainId::Workspace { root, vpath } => match path_entry_directory(
                    root.as_str(),
                    vpath.as_str(),
                ) {
                    Some(d) => Ok(d),
                    None => Err(ArgsError::EntryWithoutParent),
                },
                MainId::MemoryMain => Ok(String::from_str(cwd)),
            }
        }
    } else {
        Ok(String::from_str(output))
    }
}

impl CompileOnceArgs {
    /// Whether the input is read from standard input.
    pub fn is_stdin(&self) -> (b: bool)
        ensures
            b == designates_stdin(self.entry@),
    {
        entry_is_stdin(self.entry.as_str())
    }

    /// The root of the workspace: resolved once against the current directory
    /// `cwd`, then kept.
    pub fn root(&mut self, cwd: &str) -> (r: String)
        ensures
            r@ == root_of(*old(self), cwd@),
            *final(self) == (CompileOnceArgs { parsed_entry: Some(r), ..*old(self) }),
    {
        match &self.parsed_entry {
            Some(p) => {
                return p.clone();
            },
            None => {},
        }
        let r = if path_is_absolute(self.workspace.as_str()) {
            self.workspace.clone()
        } else {
            path_join(cwd, self.workspace.as_str())
        };
        self.parsed_entry = Some(r.clone());
        r
    }

    /// The main file: the memory entry for standard input, else the entry
    /// file relative to the workspace root. Resolved once, then kept.
    pub fn main_id(&mut self, cwd: &str) -> (r: Result<MainId, ArgsError>)
        ensures
            main_id_result_view(r) == main_id_of(*old(self), cwd@),
            after_main_id(*old(self), *final(self), cwd@),
            main_id_cache_fits(*old(self)) ==> main_id_cache_fits(*final(self)),
    {
        match &self.main_id {
            Some(m) => {
                return Ok(m.clone());
            },
            None => {},
        }
        let id = if self.is_stdin() {
            MainId::MemoryMain
        } else {
            let root = self.root(cwd);
            let entry = if path_is_absolute(self.entry.as_str()) {
                self.entry.clone()
            } else {
                path_join(cwd, self.entry.as_str())
            };
            match path_strip_prefix(entry.as_str(), root.as_str()) {
                Some(rel) => {
                    let vpath = virtual_path(rel.as_str());
                    MainId::Workspace { root, vpath }
                },
                None => {
                    return Err(ArgsError::EntryOutsideWorkspace { workspace_dir: root });
                },
            }
        };
        self.main_id = Some(id.clone());
        Ok(id)
    }

    /// The output directory: `output` if given, else the current directory
    /// for standard input, else the directory that holds the entry file.
    /// Resolved once, then kept.
    pub fn output_dir(&mut self, cwd: &str) -> (r: Result<String, ArgsError>)
        ensures
            dir_result_view(r) == output_dir_of(*old(self), cwd@),
            after_output_dir(*old(self), *final(self), cwd@),
    {
        match &self.parsed_output {
            Some(o) => {
                return Ok(o.clone());
            },
            None => {},
        }
        let input = match self.main_id(cwd) {
            Ok(m) => m,
            Err(e) => {
                return Err(e);
            },
        };
        let stdin = self.is_stdin();
        match output_dir_for(self.output.as_str(), stdin, cwd, &input) {
            Ok(o) => {
                self.parsed_output = Some(o.clone());
                Ok(o)
            },
            Err(e) => Err(e),
        }
    }
}

/// Which format to use for diagnostics.
#[derive(Debug, Copy, Clone, Eq, PartialEq, Ord, PartialOrd, Structural)]
pub enum DiagnosticFormat {
    Human,
    Short,
}

/// The name under which a diagnostic format is given on the command line
/// and printed.
pub open spec fn format_name(f: DiagnosticFormat) -> Seq<char> {
    match f {
        DiagnosticFormat::Human => "human"@,
        DiagnosticFormat::Short => "short"@,
    }
}

/// The format that the compiler reports diagnostics in for a given format.
pub open spec fn handler_format(f: DiagnosticFormat) -> diagnostics::DiagnosticFormat {
    match f {
        DiagnosticFormat::Human => diagnostics::DiagnosticFormat::Human,
        DiagnosticFormat::Short => diagnostics::DiagnosticFormat::Short,
    }
}

impl vstd::std_specs::convert::FromSpecImpl<DiagnosticFormat> for diagnostics::DiagnosticFormat {
    open spec fn obeys_from_spec() -> bool {
        true
    }

    open spec fn from_spec(v: DiagnosticFormat) -> Self {
        handler_format(v)
    }
}

impl From<DiagnosticFormat> for diagnostics::DiagnosticFormat {
    fn from(fmt: DiagnosticFormat) -> (r: Self) {
        match fmt {
            DiagnosticFormat::Human => diagnostics::DiagnosticFormat::Human,
            DiagnosticFormat::Short => diagnostics::DiagnosticFormat::Short,
        }
    }
}

impl Default for DiagnosticFormat {
    fn default() -> (r: Self)
        ensures
            r == DiagnosticFormat::Human,
    {
        DiagnosticFormat::Human
    }
}

impl DiagnosticFormat {
    /// The name of the format, as it is printed.
    pub fn to_string(&self) -> (r: String)
        ensures
            r@ == format_name(*self),
    {
        match self {
            DiagnosticFormat::Human => String::from_str("human"),
            DiagnosticFormat::Short => String::from_str("short"),
        }
    }
}

/// The two formats are printed under different names, so that a printed
/// name (such as the default's) is read back as the same format.
pub proof fn lemma_format_names_distinct()
    ensures
        format_name(DiagnosticFormat::Human) != format_name(DiagnosticFormat::Short),
        format_name(DiagnosticFormat::Human) == seq!['h', 'u', 'm', 'a', 'n'],
        format_name(DiagnosticFormat::Short) == seq!['s', 'h', 'o', 'r', 't'],
{
    reveal_strlit("human");
    reveal_strlit("short");
    assert(format_name(DiagnosticFormat::Human) =~= seq!['h', 'u', 'm', 'a', 'n']);
    assert(format_name(DiagnosticFormat::Short) =~= seq!['s', 'h', 'o', 'r', 't']);
    assert(format_name(DiagnosticFormat::Human)[0] != format_name(DiagnosticFormat::Short)[0]);
}

/// Export options.
#[derive(Debug, Clone, Default)]
pub struct ExportArgs {
    /// The document's creation date formatted as a UNIX timestamp.
    pub creation_timestamp: Option<i64>,
}

/// Compile options.
#[derive(Debug, Clone, Default)]
pub struct CompileArgs {
    /// Compile arguments before query.
    pub compile: CompileOnceArgs,
    pub export: ExportArgs,
    /// Runs compilation in watch mode.
    pub watch: bool,
    /// Generates dynamic layout representation.
    pub dynamic_layout: bool,
    /// Output formats: `ast`, `pdf`, `svg`, and `svg_html`.
    pub format: Vec<String>,
    /// The format to emit diagnostics in.
    pub diagnostic_format: DiagnosticFormat,
}

impl CompileArgs {
    /// How diagnostics are reported: in the chosen format, with the compile
    /// status printed in watch mode.
    pub fn diagnostics_handler(&self) -> (h: DiagnosticHandler)
        ensures
            h == (DiagnosticHandler {
                diagnostic_format: handler_format(self.diagnostic_format),
                print_compile_status: self.watch,
            }),
    {
        DiagnosticHandler {
            diagnostic_format: diagnostics::DiagnosticFormat::from(self.diagnostic_format),
            print_compile_status: self.watch,
        }
    }
}

/// Processes an input file to extract provided metadata.
#[derive(Debug, Clone)]
pub struct QueryArgs {
    /// Compile arguments before query.
    pub compile: CompileArgs,
    /// Defines what elements to retrieve.
    pub selector: String,
    /// Extracts just one field from all retrieved elements.
    pub field: Option<String>,
    /// Expects and retrieves exactly one element.
    pub one: bool,
}

/// Arguments of the query REPL.
#[derive(Debug, Clone)]
pub struct QueryReplArgs {
    /// Compile arguments before query.
    pub compile: CompileOnceArgs,
}

/// Lists all discovered fonts in system and custom font paths.
#[derive(Debug, Clone)]
pub struct ListFontsArgs {
    /// Shared arguments for font related commands.
    pub font: FontArgs,
    /// Also lists style variants of each font family.
    pub variants: bool,
}

/// Measures fonts and generates a profile file for the compiler.
#[derive(Debug, Clone)]
pub struct MeasureFontsArgs {
    /// Shared arguments for font related commands.
    pub font: FontArgs,
    /// Path to the output profile file.
    pub output: String,
    /// Excludes system font paths.
    pub no_system_fonts: bool,
}

/// The kind of client environment to dump.
#[derive(Debug, Clone, Copy, PartialEq, Eq, Structural)]
pub enum EnvKey {
    Features,
}

/// Generates a manual.
#[derive(Debug, Clone)]
pub struct ManualArgs {
    /// Path to the output directory.
    pub dest: String,
}

/// Dumps the client environment.
#[derive(Debug, Clone)]
pub struct EnvArgs {
    /// The key of environment kind.
    pub key: EnvKey,
}

/// Lists discovered packages.
#[derive(Debug, Clone)]
pub struct ListPackagesArgs {
    /// Also lists other information of each package.
    pub long: bool,
}

/// Links or unlinks a package.
#[derive(Debug, Clone)]
pub struct LinkPackagesArgs {
    /// Path to the package manifest file.
    pub manifest: String,
}

/// Generates documentation for a package.
#[derive(Debug, Clone)]
pub struct GenPackagesDocArgs {
    /// Path to the package manifest file.
    pub manifest: String,
    /// Path to the output directory.
    pub output: String,
    /// Generates dynamic layout representation.
    pub dynamic_layout: bool,
}

/// Font commands.
#[derive(Debug, Clone)]
pub enum FontSubCommands {
    /// Lists all discovered fonts in system and custom font paths.
    List(ListFontsArgs),
}

/// Package commands.
#[derive(Debug, Clone)]
pub enum PackageSubCommands {
    /// Lists all discovered packages in data and cache paths.
    List(ListPackagesArgs),
    /// Links a package to the local data path.
    Link(LinkPackagesArgs),
    /// Unlinks a package from the local data path.
    Unlink(LinkPackagesArgs),
    /// Generates documentation for a package.
    Doc(GenPackagesDocArgs),
}

/// Once resolved, the workspace root stays what it was: a later call gives
/// it back whatever the current directory, and whatever else the caller
/// changed in the arguments meanwhile.
pub proof fn lemma_root_kept(
    args: CompileOnceArgs,
    r: String,
    cwd: Seq<char>,
    later: CompileOnceArgs,
    later_cwd: Seq<char>,
)
    requires
        r@ == root_of(args, cwd),
        later.parsed_entry == Some(r),
    ensures
        root_of(later, later_cwd) == root_of(args, cwd),
{
}

/// Once found, the main file stays what it was: a later call gives it back
/// whatever the current directory, and whatever else the caller changed in
/// the arguments meanwhile.
pub proof fn lemma_main_id_kept(
    old: CompileOnceArgs,
    new: CompileOnceArgs,
    cwd: Seq<char>,
    later: CompileOnceArgs,
    later_cwd: Seq<char>,
)
    requires
        after_main_id(old, new, cwd),
        main_id_of(old, cwd) is Ok,
        later.main_id == new.main_id,
    ensures
        main_id_of(later, later_cwd) == main_id_of(old, cwd),
{
}

/// Once found, the output directory stays what it was: a later call gives it
/// back whatever the current directory, and whatever else the caller changed
/// in the arguments meanwhile (the entry or the output among them). The call
/// that finds it also fixes the main file.
pub proof fn lemma_output_dir_kept(
    old: CompileOnceArgs,
    new: CompileOnceArgs,
    cwd: Seq<char>,
    later: CompileOnceArgs,
    later_cwd: Seq<char>,
)
    requires
        after_output_dir(old, new, cwd),
        output_dir_of(old, cwd) is Ok,
        later.parsed_output == new.parsed_output,
    ensures
        output_dir_of(later, later_cwd) == output_dir_of(old, cwd),
        old.parsed_output is None ==> new.main_id is Some,
{
}

/// With an output directory given, that is the output directory, taken as it
/// is, for every main file the entry leads to.
pub proof fn lemma_output_given(args: CompileOnceArgs, cwd: Seq<char>)
    requires
        args.parsed_output is None,
        args.output@.len() > 0,
        main_id_of(args, cwd) is Ok,
    ensures
        output_dir_of(args, cwd) == Ok::<Seq<char>, ArgsErrorView>(args.output@),
{
}

/// With no output given, the output directory is the directory that holds
/// the entry file: for an entry under an absolute workspace root, whose path
/// below the root names at least one component and goes through no `..`, it
/// is the parent of the entry's path.
pub proof fn lemma_output_dir_holds_entry(root: Seq<char>, rel: Seq<char>, cwd: Seq<char>)
    requires
        is_absolute(root),
        !is_absolute(rel),
        named(segments(rel)).len() > 0,
        !named(segments(rel)).contains(parent_dir()),
    ensures
        main_id_from(join(root, rel), root, cwd) is Ok,
        parent(join(root, rel)) is Some,
        output_dir_from(Seq::empty(), false, cwd, main_id_from(join(root, rel), root, cwd)->Ok_0)
            == Ok::<Seq<char>, ArgsErrorView>(parent(join(root, rel))->Some_0),
{
    let cs = named(segments(rel));
    lemma_entry_in_workspace(root, rel, cwd);
    lemma_named_segments_plain(rel);
    lemma_components_of_relative(cs);
    lemma_virtual_keeps_plain(cs);
    let vpath = rooted_virtual_path(render(cs));
    assert(vpath == render(seq![root_dir()] + cs));
    lemma_components_of_rooted(cs);
    let vc = components(vpath);
    assert(vc == seq![root_dir()] + cs);
    let c = cs.last();
    assert(cs[cs.len() - 1] == c);
    assert(c != root_dir()) by {
        assert(root_dir()[0] == '/');
        if c == root_dir() {
            assert(c.contains('/'));
        }
    }
    assert(vc.last() == c);
    assert(vc[0] == root_dir());
    assert(vc.subrange(1, vc.len() - 1) =~= cs.drop_last());
    lemma_join_components(root, rel);
    let pc = components(join(root, rel));
    assert(pc == components(root) + cs);
    assert(pc.last() == c);
    assert(pc.drop_last() =~= components(root) + cs.drop_last());
}

/// An entry given as a relative path under an absolute workspace root is
/// found in that workspace, at that relative path read from the root.
pub proof fn lemma_entry_in_workspace(root: Seq<char>, rel: Seq<char>, cwd: Seq<char>)
    requires
        is_absolute(root),
        !is_absolute(rel),
    ensures
        main_id_from(join(root, rel), root, cwd) == Ok::<MainIdView, ArgsErrorView>(
            MainIdView::Workspace {
                root,
                vpath: rooted_virtual_path(render(named(segments(rel)))),
            },
        ),
{
    let entry = join(root, rel);
    assert(entry[0] == root[0]);
    assert(is_absolute(entry));
    assert(!designates_stdin(entry));
    lemma_strip_joined(root, rel);
}

/// With the default workspace `.`, any relative entry other than `-` is
/// found in the workspace, at its own path with empty and `.` segments
/// dropped.
pub proof fn lemma_default_workspace(entry: Seq<char>, cwd: Seq<char>)
    requires
        cwd.len() > 0,
        !is_absolute(entry),
        entry != seq!['-'],
    ensures
        main_id_from(entry, resolve_root(seq!['.'], cwd), cwd) == Ok::<
            MainIdView,
            ArgsErrorView,
        >(
            MainIdView::Workspace {
                root: join(cwd, seq!['.']),
                vpath: rooted_virtual_path(render(named(segments(entry)))),
            },
        ),
{
    let dot = seq!['.'];
    let root = join(cwd, dot);
    assert(resolve_root(dot, cwd) == root);
    assert(dot.drop_last() =~= Seq::<char>::empty());
    let empty = Seq::<char>::empty();
    assert(segments(dot.drop_last()) == seq![empty]);
    assert(empty.push('.') =~= dot);
    assert(seq![empty].update(0, empty.push('.')) =~= seq![dot]);
    assert(segments(dot) =~= seq![dot]);
    assert(!crate::paths::is_named(dot));
    assert(seq![dot].drop_last() =~= Seq::<Seq<char>>::empty());
    assert(seq![dot].last() == dot);
    assert(named(seq![dot]) == named(Seq::<Seq<char>>::empty()));
    assert(named(segments(dot)) =~= Seq::<Seq<char>>::empty());
    lemma_join_components(cwd, dot);
    assert(components(root) =~= components(cwd));
    lemma_join_components(cwd, entry);
    let pc = components(join(cwd, entry));
    let bc = components(root);
    assert(pc.take(bc.len() as int) =~= bc);
    assert(pc.skip(bc.len() as int) =~= named(segments(entry)));
}

/// An entry that is the workspace root itself has no directory to hold it, so
/// with no output given there is no output directory.
pub proof fn lemma_entry_at_root(root: Seq<char>, cwd: Seq<char>)
    requires
        is_absolute(root),
    ensures
        main_id_from(root, root, cwd) is Ok,
        output_dir_from(Seq::empty(), false, cwd, main_id_from(root, root, cwd)->Ok_0) == Err::<
            Seq<char>,
            ArgsErrorView,
        >(ArgsErrorView::EntryWithoutParent),
{
    assert(!designates_stdin(root)) by {
        if designates_stdin(root) {
            assert(root[0] == '-');
        }
    }
    let rc = components(root);
    assert(rc.take(rc.len() as int) =~= rc);
    assert(rc.skip(rc.len() as int) =~= Seq::<Seq<char>>::empty());
    let e = Seq::<char>::empty();
    let none = Seq::<Seq<char>>::empty();
    assert(render(none) == e);
    assert(segments(e) == seq![e]);
    assert(seq![e].drop_last() =~= none);
    assert(named(seq![e]) == named(none));
    assert(components(e) =~= none);
    assert(crate::vpath::virtual_components(none) == none);
    lemma_components_of_rooted(none);
    assert(seq![root_dir()] + none =~= seq![root_dir()]);
    let vpath = rooted_virtual_path(e);
    assert(components(vpath) == seq![root_dir()]);
}

/// Only the entry `-` reads standard input; every other entry names a file.
pub proof fn lemma_only_dash_is_stdin(entry: Seq<char>)
    ensures
        designates_stdin(entry) <==> entry == seq!['-'],
{
}

/// An entry other than `-` whose absolute path lies under the workspace root
/// is always a file of that workspace, at its path below the root read as a
/// virtual path; it is never taken for standard input.
pub proof fn lemma_file_entry_in_workspace(entry: Seq<char>, root: Seq<char>, cwd: Seq<char>)
    requires
        entry != seq!['-'],
        strip_prefix(absolute_entry(entry, cwd), root) is Some,
    ensures
        main_id_from(entry, root, cwd) == Ok::<MainIdView, ArgsErrorView>(
            MainIdView::Workspace {
                root,
                vpath: rooted_virtual_path(strip_prefix(absolute_entry(entry, cwd), root)->Some_0),
            },
        ),
{
}

/// A relative entry is read against the current directory, whatever the
/// workspace root: it leads to the same main file (or the same refusal) as
/// its path joined onto the current directory.
pub proof fn lemma_relative_entry_against_cwd(entry: Seq<char>, root: Seq<char>, cwd: Seq<char>)
    requires
        !is_absolute(entry),
        entry != seq!['-'],
        is_absolute(cwd),
    ensures
        is_absolute(join(cwd, entry)),
        main_id_from(entry, root, cwd) == main_id_from(join(cwd, entry), root, cwd),
{
    assert(join(cwd, entry)[0] == cwd[0]);
    assert(join(cwd, entry) != seq!['-']) by {
        if join(cwd, entry) == seq!['-'] {
            assert(join(cwd, entry)[0] == '-');
        }
    }
}

/// An absolute workspace is its own root.
pub proof fn lemma_absolute_workspace_root(workspace: Seq<char>, cwd: Seq<char>)
    requires
        is_absolute(workspace),
    ensures
        resolve_root(workspace, cwd) == workspace,
{
}

/// A relative workspace lies under the current directory: its root is the
/// current directory, a `/` unless the current directory ends in one, and the
/// workspace; its components are those of the current directory followed by
/// the workspace's named segments.
pub proof fn lemma_relative_workspace_root(workspace: Seq<char>, cwd: Seq<char>)
    requires
        !is_absolute(workspace),
        cwd.len() > 0,
    ensures
        cwd.last() != '/' ==> resolve_root(workspace, cwd) == cwd + seq!['/'] + workspace,
        cwd.last() == '/' ==> resolve_root(workspace, cwd) == cwd + workspace,
        components(resolve_root(workspace, cwd)) == components(cwd) + named(segments(workspace)),
{
    lemma_join_components(cwd, workspace);
}

/// The root that `root` resolves, for arguments not resolved before: the
/// workspace if it is absolute, else the workspace under the current
/// directory.
pub proof fn lemma_root_of_fresh(args: CompileOnceArgs, cwd: Seq<char>)
    requires
        args.parsed_entry is None,
        cwd.len() > 0,
    ensures
        is_absolute(args.workspace@) ==> root_of(args, cwd) == args.workspace@,
        !is_absolute(args.workspace@) ==> components(root_of(args, cwd)) == components(cwd)
            + named(segments(args.workspace@)),
{
    if !is_absolute(args.workspace@) {
        lemma_relative_workspace_root(args.workspace@, cwd);
    }
}

/// For a path whose components are those of `root` followed by plain
/// components `cs` (at least one, no `..`), the directory that holds the main
/// file at the virtual path of `cs` in the workspace at `root` is the path's
/// parent.
pub proof fn lemma_entry_directory_is_parent(root: Seq<char>, full: Seq<char>, cs: Seq<Seq<char>>)
    requires
        components(full) == components(root) + cs,
        cs.len() > 0,
        forall|i: int| 0 <= i < cs.len() ==> crate::paths::is_plain_component(#[trigger] cs[i]),
        !cs.contains(parent_dir()),
    ensures
        parent(full) is Some,
        entry_directory(root, rooted_virtual_path(render(cs))) == parent(full),
{
    lemma_components_of_relative(cs);
    lemma_virtual_keeps_plain(cs);
    let vpath = rooted_virtual_path(render(cs));
    assert(vpath == render(seq![root_dir()] + cs));
    lemma_components_of_rooted(cs);
    let vc = components(vpath);
    assert(vc == seq![root_dir()] + cs);
    let c = cs.last();
    assert(cs[cs.len() - 1] == c);
    assert(c != root_dir()) by {
        assert(root_dir()[0] == '/');
        if c == root_dir() {
            assert(c.contains('/'));
        }
    }
    assert(vc.last() == c);
    assert(vc[0] == root_dir());
    assert(vc.subrange(1, vc.len() - 1) =~= cs.drop_last());
    let pc = components(full);
    assert(pc.last() == c);
    assert(pc.drop_last() =~= components(root) + cs.drop_last());
}

/// A relative entry `w/rel` given with the relative workspace `w` is found in
/// the workspace under the current directory, at `rel`.
pub proof fn lemma_workspace_relative_main(w: Seq<char>, rel: Seq<char>, cwd: Seq<char>)
    requires
        is_absolute(cwd),
        w.len() > 0,
        !is_absolute(w),
        !is_absolute(rel),
    ensures
        !designates_stdin(join(w, rel)),
        components(join(cwd, join(w, rel))) == components(join(cwd, w)) + named(segments(rel)),
        main_id_from(join(w, rel), resolve_root(w, cwd), cwd) == Ok::<MainIdView, ArgsErrorView>(
            MainIdView::Workspace {
                root: join(cwd, w),
                vpath: rooted_virtual_path(render(named(segments(rel)))),
            },
        ),
{
    let entry = join(w, rel);
    let root = join(cwd, w);
    let cs = named(segments(rel));
    assert(entry[0] == w[0]);
    assert(!is_absolute(entry));
    assert(entry.len() >= 2) by {
        if w.last() == '/' {
            if w.len() == 1 {
                assert(w[0] == '/');
            }
        }
    }
    assert(entry != seq!['-']) by {
        if entry == seq!['-'] {
            assert(entry.len() == 1);
        }
    }
    lemma_join_components(cwd, w);
    lemma_join_components(w, rel);
    lemma_join_components(cwd, entry);
    let full = join(cwd, entry);
    let pc = components(full);
    let bc = components(root);
    assert(pc =~= bc + cs);
    assert(pc.take(bc.len() as int) =~= bc);
    assert(pc.skip(bc.len() as int) =~= cs);
}

/// For fresh arguments whose entry is given, like the workspace, relative to
/// the current directory (the entry `w/rel` in the workspace `w`), the main
/// file is `rel` below the workspace root under the current directory, and
/// with no output given the output directory is the directory that holds the
/// entry file: the parent of the entry joined onto the current directory.
pub proof fn lemma_relative_workspace_entry(
    args: CompileOnceArgs,
    cwd: Seq<char>,
    rel: Seq<char>,
)
    requires
        is_absolute(cwd),
        args.workspace@.len() > 0,
        !is_absolute(args.workspace@),
        !is_absolute(rel),
        args.entry@ == join(args.workspace@, rel),
        named(segments(rel)).len() > 0,
        !named(segments(rel)).contains(parent_dir()),
        args.output@.len() == 0,
        args.parsed_entry is None,
        args.main_id is None,
        args.parsed_output is None,
    ensures
        main_id_of(args, cwd) == Ok::<MainIdView, ArgsErrorView>(
            MainIdView::Workspace {
                root: join(cwd, args.workspace@),
                vpath: rooted_virtual_path(render(named(segments(rel)))),
            },
        ),
        parent(join(cwd, args.entry@)) is Some,
        output_dir_of(args, cwd) == Ok::<Seq<char>, ArgsErrorView>(
            parent(join(cwd, args.entry@))->Some_0,
        ),
{
    let w = args.workspace@;
    lemma_workspace_relative_main(w, rel, cwd);
    lemma_named_segments_plain(rel);
    lemma_entry_directory_is_parent(join(cwd, w), join(cwd, args.entry@), named(segments(rel)));
}

} // verus!
