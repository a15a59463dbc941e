//! The command line of the editor.

use crate::song::text_views;
use crate::text::{concat, occurs_at, same_text, starts_with};
use vstd::prelude::*;

verus! {

/// What the command line asks for.
pub enum CliAction {
    /// The version is printed.
    Version,
    /// A help text is printed.
    Help,
    /// An option is not known.
    UnknownOption(String),
    /// Some files are opened, perhaps in the background; an empty document where
    /// there are none.
    Open { paths: Vec<String>, detach: bool },
}

/// What an argument is.
pub enum ArgKind {
    Version,
    Help,
    Detach,
    Unknown,
    Path,
}

/// What an argument is.
pub open spec fn arg_kind(arg: Seq<char>) -> ArgKind {
    if arg == "--version"@ || arg == "-v"@ {
        ArgKind::Version
    } else if arg == "--help"@ || arg == "-h"@ {
        ArgKind::Help
    } else if arg == "--detach"@ || arg == "-d"@ {
        ArgKind::Detach
    } else if occurs_at(arg, "-"@, 0) {
        ArgKind::Unknown
    } else {
        ArgKind::Path
    }
}

/// The place of the first argument that ends the reading of the command line: the
/// number of arguments where none does.
pub open spec fn first_ending(args: Seq<Seq<char>>, from: int) -> int
    decreases args.len() - from,
{
    if from < 0 || from >= args.len() {
        args.len() as int
    } else {
        match arg_kind(args[from]) {
            ArgKind::Detach | ArgKind::Path => first_ending(args, from + 1),
            _ => from,
        }
    }
}

/// The paths among some arguments.
pub open spec fn paths_in(args: Seq<Seq<char>>) -> Seq<Seq<char>>
    decreases args.len(),
{
    if args.len() == 0 {
        seq![]
    } else if arg_kind(args.last()) is Path {
        paths_in(args.drop_last()).push(args.last())
    } else {
        paths_in(args.drop_last())
    }
}

/// Whether some argument asks for the background.
pub open spec fn detaches(args: Seq<Seq<char>>) -> bool {
    exists|i: int| 0 <= i < args.len() && arg_kind(#[trigger] args[i]) is Detach
}

fn kind_of(arg: &str) -> (r: ArgKind)
    ensures
        r == arg_kind(arg@),
{
    if same_text(arg, "--version") || same_text(arg, "-v") {
        ArgKind::Version
    } else if same_text(arg, "--help") || same_text(arg, "-h") {
        ArgKind::Help
    } else if same_text(arg, "--detach") || same_text(arg, "-d") {
        ArgKind::Detach
    } else if starts_with(arg, "-") {
        ArgKind::Unknown
    } else {
        ArgKind::Path
    }
}

/// What the command line asks for. `args` are the arguments behind the name of
/// the program.
pub fn parse_args(args: &Vec<String>) -> (r: CliAction)
    ensures
        ({
            let views = text_views(args@);
            let end = first_ending(views, 0);
            match r {
                CliAction::Version => end < views.len() && arg_kind(views[end]) is Version,
                CliAction::Help => end < views.len() && arg_kind(views[end]) is Help,
                CliAction::UnknownOption(option) => end < views.len() && arg_kind(
                    views[end],
                ) is Unknown && option@ == views[end],
                CliAction::Open { paths, detach } => end == views.len() && text_views(paths@)
                    == paths_in(views) && detach == detaches(views),
            }
        }),
{
    let ghost views = text_views(args@);
    let mut paths: Vec<String> = Vec::new();
    let mut detach: bool = false;
    let mut i: usize = 0;
    assert(text_views(paths@) =~= paths_in(views.take(0)));
    while i < args.len()
        invariant
            i <= args@.len(),
            views == text_views(args@),
            first_ending(views, 0) == first_ending(views, i as int),
            text_views(paths@) == paths_in(views.take(i as int)),
            detach == exists|k: int| 0 <= k < i && arg_kind(#[trigger] views[k]) is Detach,
        decreases args@.len() - i,
    {
        proof {
            assert(views[i as int] == args@[i as int]@);
            assert(views.take(i + 1).drop_last() =~= views.take(i as int));
            assert(views.take(i + 1).last() == views[i as int]);
        }
        match kind_of(args[i].as_str()) {
            ArgKind::Version => return CliAction::Version,
            ArgKind::Help => return CliAction::Help,
            ArgKind::Unknown => return CliAction::UnknownOption(args[i].clone()),
            ArgKind::Detach => {
                assert(arg_kind(views[i as int]) is Detach);
                detach = true;
            },
            ArgKind::Path => {
                let path: String = args[i].clone();
                let ghost before = paths@;
                paths.push(path);
                assert(text_views(paths@) =~= text_views(before).push(path@));
            },
        }
        i += 1;
    }
    assert(views.take(args@.len() as int) =~= views);
    CliAction::Open { paths, detach }
}

/// The arguments for the program in the background: those without the wish for
/// it.
pub open spec fn attached_args(args: Seq<Seq<char>>) -> Seq<Seq<char>>
    decreases args.len(),
{
    if args.len() == 0 {
        seq![]
    } else if arg_kind(args.last()) is Detach {
        attached_args(args.drop_last())
    } else {
        attached_args(args.drop_last()).push(args.last())
    }
}

/// The arguments for the program in the background.
pub fn without_detach(args: &Vec<String>) -> (r: Vec<String>)
    ensures
        text_views(r@) == attached_args(text_views(args@)),
{
    let ghost views = text_views(args@);
    let mut r: Vec<String> = Vec::new();
    let mut i: usize = 0;
    assert(text_views(r@) =~= attached_args(views.take(0)));
    while i < args.len()
        invariant
            i <= args@.len(),
            views == text_views(args@),
            text_views(r@) == attached_args(views.take(i as int)),
        decreases args@.len() - i,
    {
        proof {
            assert(views[i as int] == args@[i as int]@);
            assert(views.take(i + 1).drop_last() =~= views.take(i as int));
            assert(views.take(i + 1).last() == views[i as int]);
        }
        match kind_of(args[i].as_str()) {
            ArgKind::Detach => {},
            _ => {
                let arg: String = args[i].clone();
                let ghost before = r@;
                r.push(arg);
                assert(text_views(r@) =~= text_views(before).push(arg@));
            },
        }
        i += 1;
    }
    assert(views.take(args@.len() as int) =~= views);
    r
}

/// The line that tells the version.
pub fn version_line(version: &str) -> (r: String)
    ensures
        r@ == "velotype "@ + version@,
{
    concat("velotype ", version)
}

/// The line that tells of an option that is not known.
pub fn unknown_option_line(option: &str) -> (r: String)
    ensures
        r@ == "Unknown option: "@ + option@,
{
    concat("Unknown option: ", option)
}

/// The lines of the help text below the one that names the program.
pub open spec fn help_text() -> Seq<Seq<char>> {
    seq![
        ""@,
        "USAGE:"@,
        "    velotype [OPTIONS] [FILES...]"@,
        ""@,
        "OPTIONS:"@,
        "    -v, --version    Print version information"@,
        "    -h, --help       Print this help message"@,
        "    -d, --detach     Launch in background (non-blocking)"@,
        ""@,
        "FILES:"@,
        "    One or more markdown files to open. If no files are specified,"@,
        "    opens an empty document."@,
    ]
}

/// The lines of the help text.
pub fn help_lines(version: &str) -> (r: Vec<String>)
    ensures
        text_views(r@) == seq![
            "velotype "@ + version@ + " - A block-based Markdown editor"@,
        ] + help_text(),
{
    let mut r: Vec<String> = Vec::new();
    let name = version_line(version);
    r.push(concat(name.as_str(), " - A block-based Markdown editor"));
    r.push("".to_owned());
    r.push("USAGE:".to_owned());
    r.push("    velotype [OPTIONS] [FILES...]".to_owned());
    r.push("".to_owned());
    r.push("OPTIONS:".to_owned());
    r.push("    -v, --version    Print version information".to_owned());
    r.push("    -h, --help       Print this help message".to_owned());
    r.push("    -d, --detach     Launch in background (non-blocking)".to_owned());
    r.push("".to_owned());
    r.push("FILES:".to_owned());
    r.push("    One or more markdown files to open. If no files are specified,".to_owned());
    r.push("    opens an empty document.".to_owned());
    assert(text_views(r@) =~= seq![
        "velotype "@ + version@ + " - A block-based Markdown editor"@,
    ] + help_text());
    r
}

/// The options and their short forms; any other argument that begins with a dash is unknown,
/// and the rest are paths.
pub proof fn law_options_are_known(arg: Seq<char>)
    ensures
        arg_kind("--version"@) == ArgKind::Version && arg_kind("-v"@) == ArgKind::Version,
        arg_kind("--help"@) == ArgKind::Help && arg_kind("-h"@) == ArgKind::Help,
        arg_kind("--detach"@) == ArgKind::Detach && arg_kind("-d"@) == ArgKind::Detach,
        arg.len() > 0 && arg[0] != '-' ==> arg_kind(arg) == ArgKind::Path,
        arg.len() > 0 && arg[0] == '-' ==> arg_kind(arg) != ArgKind::Path,
        arg.len() == 0 ==> arg_kind(arg) == ArgKind::Path,
{
    reveal_strlit("--version");
    reveal_strlit("-v");
    reveal_strlit("--help");
    reveal_strlit("-h");
    reveal_strlit("--detach");
    reveal_strlit("-d");
    reveal_strlit("-");
    assert("-v"@[1] == 'v' && "-h"@[1] == 'h' && "-d"@[1] == 'd');
    assert("--version"@.len() == 9 && "--help"@.len() == 6 && "--detach"@.len() == 8);
    assert("--version"@[0] == '-' && "--help"@[0] == '-' && "--detach"@[0] == '-');
    assert("-v"@[0] == '-' && "-h"@[0] == '-' && "-d"@[0] == '-');
    assert("-"@ =~= seq!['-']);
    if arg.len() > 0 && arg[0] == '-' {
        assert(arg.subrange(0, 1) =~= seq!['-']);
    }
    if occurs_at(arg, "-"@, 0) {
        assert(arg.subrange(0, 1)[0] == arg[0]);
    }
}

/// The first argument that asks for the version or for help, or is unknown, decides; without
/// one the paths are opened in their order.
pub proof fn law_first_ending_decides(args: Seq<Seq<char>>)
    ensures
        ({
            let at = first_ending(args, 0);
            &&& 0 <= at <= args.len()
            &&& forall|i: int|
                0 <= i < at ==> arg_kind(#[trigger] args[i]) is Path || arg_kind(args[i]) is Detach
            &&& at < args.len() ==> !(arg_kind(args[at]) is Path) && !(arg_kind(args[at]) is Detach)
        }),
        forall|arg: Seq<char>|
            arg_kind(arg) is Path ==> paths_in(#[trigger] args.push(arg)) == paths_in(args).push(
                arg,
            ) && attached_args(args.push(arg)) == attached_args(args).push(arg),
        forall|arg: Seq<char>|
            arg_kind(arg) is Detach ==> paths_in(#[trigger] args.push(arg)) == paths_in(args)
                && attached_args(args.push(arg)) == attached_args(args) && detaches(args.push(arg)),
        paths_in(Seq::empty()).len() == 0,
{
    lemma_first_ending(args, 0);
    assert forall|arg: Seq<char>| true implies (#[trigger] args.push(arg)).drop_last() == args
        && args.push(arg).last() == arg by {
        assert(args.push(arg).drop_last() =~= args);
    }
    assert forall|arg: Seq<char>| arg_kind(arg) is Detach implies detaches(
        #[trigger] args.push(arg),
    ) by {
        assert(arg_kind(args.push(arg)[args.len() as int]) is Detach);
    }
}

proof fn lemma_first_ending(args: Seq<Seq<char>>, from: int)
    requires
        0 <= from <= args.len(),
    ensures
        ({
            let at = first_ending(args, from);
            &&& from <= at <= args.len()
            &&& forall|i: int|
                from <= i < at ==> arg_kind(#[trigger] args[i]) is Path || arg_kind(args[i]) is Detach
            &&& at < args.len() ==> !(arg_kind(args[at]) is Path) && !(arg_kind(args[at]) is Detach)
        }),
    decreases args.len() - from,
{
    if from < args.len() && (arg_kind(args[from]) is Path || arg_kind(args[from]) is Detach) {
        lemma_first_ending(args, from + 1);
    }
}

} // verus!
