//! The decisions of the command-line driver: its fixed texts, and the action
//! that a list of arguments calls for.  Printing, reading files and exiting
//! stay with the embedding program; this module only decides.

use vstd::prelude::*;

verus! {

/// The usage text of the command-line driver.
pub fn usage() -> (s: String)
    ensures
        s@ == "Usage: tvm [options] [file]\nOptions:\n    -v, --version    Print version.\n    -h, --help       This help."@,
{
    "Usage: tvm [options] [file]\nOptions:\n    -v, --version    Print version.\n    -h, --help       This help.".to_owned()
}

/// The version number of the virtual machine.
pub fn version_number() -> (s: String)
    ensures
        s@ == "0.0.1"@,
{
    "0.0.1".to_owned()
}

/// The version banner, as the `-v` option prints it.
pub fn version() -> (s: String)
    ensures
        s@ == "Tagua VM v0.0.1"@,
{
    "Tagua VM v0.0.1".to_owned()
}

/// What the driver is to do, settled from the argument list alone.
#[derive(Debug)]
pub enum CliAction {
    /// Print the version banner.
    ShowVersion,
    /// Print the usage text.
    ShowUsage,
    /// Reject the named option, then print the usage text.
    InvalidOption(Vec<u8>),
    /// An argument with no first character: print the usage text and give up.
    EmptyArgument,
    /// More than one input file was named.
    MultipleFiles,
    /// No input file was named.
    MissingFile,
    /// Run the named file.
    RunFile(Vec<u8>),
}

/// The ghost counterpart of `CliAction`, over byte sequences.
pub enum CliActionSpec {
    ShowVersion,
    ShowUsage,
    InvalidOption(Seq<u8>),
    EmptyArgument,
    MultipleFiles,
    MissingFile,
    RunFile(Seq<u8>),
}

impl View for CliAction {
    type V = CliActionSpec;

    open spec fn view(&self) -> CliActionSpec {
        match self {
            CliAction::ShowVersion => CliActionSpec::ShowVersion,
            CliAction::ShowUsage => CliActionSpec::ShowUsage,
            CliAction::InvalidOption(o) => CliActionSpec::InvalidOption(o@),
            CliAction::EmptyArgument => CliActionSpec::EmptyArgument,
            CliAction::MultipleFiles => CliActionSpec::MultipleFiles,
            CliAction::MissingFile => CliActionSpec::MissingFile,
            CliAction::RunFile(f) => CliActionSpec::RunFile(f@),
        }
    }
}

/// The text `-v` or `--version`.
pub open spec fn is_version_option(a: Seq<u8>) -> bool {
    a == seq![45u8, 118u8] || a == seq![
        45u8,
        45u8,
        118u8,
        101u8,
        114u8,
        115u8,
        105u8,
        111u8,
        110u8,
    ]
}

/// The text `-h` or `--help`.
pub open spec fn is_help_option(a: Seq<u8>) -> bool {
    a == seq![45u8, 104u8] || a == seq![45u8, 45u8, 104u8, 101u8, 108u8, 112u8]
}

/// The action that the arguments from position `i` on call for, with
/// `pending` the input file seen so far.  Options act where they stand:
/// a version or help option, an invalid option, an empty argument or a
/// second input file ends the scan at once.
pub open spec fn spec_cli_action(args: Seq<Seq<u8>>, i: int, pending: Option<Seq<u8>>) -> CliActionSpec
    decreases args.len() - i,
    when 0 <= i <= args.len()
{
    if i >= args.len() {
        match pending {
            Some(f) => CliActionSpec::RunFile(f),
            None => CliActionSpec::MissingFile,
        }
    } else {
        let a = args[i];
        if a.len() == 0 {
            CliActionSpec::EmptyArgument
        } else if a[0] == 45u8 {
            if is_version_option(a) {
                CliActionSpec::ShowVersion
            } else if is_help_option(a) {
                CliActionSpec::ShowUsage
            } else {
                CliActionSpec::InvalidOption(a)
            }
        } else if pending is Some {
            CliActionSpec::MultipleFiles
        } else {
            spec_cli_action(args, i + 1, Some(a))
        }
    }
}

fn is_version_flag(a: &Vec<u8>) -> (r: bool)
    ensures
        r == is_version_option(a@),
{
    let short = a.len() == 2 && a[0] == 45 && a[1] == 118;
    let long = a.len() == 9 && a[0] == 45 && a[1] == 45 && a[2] == 118 && a[3] == 101 && a[4]
        == 114 && a[5] == 115 && a[6] == 105 && a[7] == 111 && a[8] == 110;
    proof {
        if short {
            assert(a@ =~= seq![45u8, 118u8]);
        }
        if long {
            assert(a@ =~= seq![45u8, 45u8, 118u8, 101u8, 114u8, 115u8, 105u8, 111u8, 110u8]);
        }
    }
    short || long
}

fn is_help_flag(a: &Vec<u8>) -> (r: bool)
    ensures
        r == is_help_option(a@),
{
    let short = a.len() == 2 && a[0] == 45 && a[1] == 104;
    let long = a.len() == 6 && a[0] == 45 && a[1] == 45 && a[2] == 104 && a[3] == 101 && a[4]
        == 108 && a[5] == 112;
    proof {
        if short {
            assert(a@ =~= seq![45u8, 104u8]);
        }
        if long {
            assert(a@ =~= seq![45u8, 45u8, 104u8, 101u8, 108u8, 112u8]);
        }
    }
    short || long
}

fn copy_bytes(a: &Vec<u8>) -> (r: Vec<u8>)
    ensures
        r@ == a@,
{
    let mut out: Vec<u8> = Vec::new();
    let mut i: usize = 0;
    while i < a.len()
        invariant
            0 <= i <= a@.len(),
            out@ == a@.subrange(0, i as int),
        decreases a@.len() - i,
    {
        out.push(a[i]);
        proof {
            assert(out@ =~= a@.subrange(0, i + 1));
        }
        i = i + 1;
    }
    proof {
        assert(out@ =~= a@);
    }
    out
}

/// The action that the whole argument list calls for.
pub fn options_action(arguments: &Vec<Vec<u8>>) -> (r: CliAction)
    ensures
        r@ == spec_cli_action(arguments.deep_view(), 0, None),
{
    let ghost args = arguments.deep_view();
    proof {
        assert(args.len() == arguments@.len());
    }
    let mut pending: Option<usize> = None;
    let mut i: usize = 0;
    while i < arguments.len()
        invariant
            0 <= i <= arguments@.len(),
            args == arguments.deep_view(),
            args.len() == arguments@.len(),
            match pending {
                Some(k) => k < i && args[k as int] == arguments@[k as int]@ && spec_cli_action(
                    args,
                    0,
                    None,
                ) == spec_cli_action(args, i as int, Some(args[k as int])),
                None => spec_cli_action(args, 0, None) == spec_cli_action(args, i as int, None),
            },
        decreases arguments@.len() - i,
    {
        let a = &arguments[i];
        proof {
            assert(args[i as int] == arguments@[i as int]@);
        }
        if a.len() == 0 {
            return CliAction::EmptyArgument;
        }
        if a[0] == 45 {
            if is_version_flag(a) {
                return CliAction::ShowVersion;
            }
            if is_help_flag(a) {
                return CliAction::ShowUsage;
            }
            return CliAction::InvalidOption(copy_bytes(a));
        }
        match pending {
            Some(_) => {
                return CliAction::MultipleFiles;
            },
            None => {
                pending = Some(i);
            },
        }
        i = i + 1;
    }
    match pending {
        Some(k) => CliAction::RunFile(copy_bytes(&arguments[k])),
        None => CliAction::MissingFile,
    }
}

} // verus!
