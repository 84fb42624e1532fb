//! The configuration that the command line gives: the directory and the
//! file's name of the snapshot.

use crate::redis_message::texts;
use crate::text::same_text;
use vstd::prelude::*;

verus! {

/// What has been read of the command line.
pub struct Flags {
    /// Whether `--dir` was seen.
    pub dir_seen: bool,
    /// The directory, empty until one is given.
    pub dir: Seq<char>,
    /// Whether `--dbfilename` was seen.
    pub name_seen: bool,
    /// The file's name, empty until one is given.
    pub name: Seq<char>,
}

/// Nothing read yet.
pub open spec fn no_flags() -> Flags {
    Flags { dir_seen: false, dir: Seq::empty(), name_seen: false, name: Seq::empty() }
}

/// What has been read after one more argument.
///
/// The first `--dir` announces the directory, and the argument after it is
/// the directory, whatever it is. The first `--dbfilename` that is not taken
/// for the directory announces the file's name in the same way. An argument
/// that does neither is passed over.
pub open spec fn after_argument(flags: Flags, argument: Seq<char>) -> Flags {
    if !flags.dir_seen && argument == "--dir"@ {
        Flags { dir_seen: true, ..flags }
    } else if flags.dir_seen && flags.dir.len() == 0 {
        Flags { dir: argument, ..flags }
    } else if !flags.name_seen && argument == "--dbfilename"@ {
        Flags { name_seen: true, ..flags }
    } else if flags.name_seen && flags.name.len() == 0 {
        Flags { name: argument, ..flags }
    } else {
        flags
    }
}

/// What has been read after all of `arguments`, the first one first.
pub open spec fn after_arguments(arguments: Seq<Seq<char>>) -> Flags
    decreases arguments.len(),
{
    if arguments.len() == 0 {
        no_flags()
    } else {
        after_argument(after_arguments(arguments.drop_last()), arguments.last())
    }
}

/// Reads the directory and the file's name of the snapshot from the
/// arguments of the command line; each is empty where it is not given.
pub fn parse_args(arguments: &Vec<String>) -> (r: (String, String))
    ensures
        r.0@ == after_arguments(texts(arguments@)).dir,
        r.1@ == after_arguments(texts(arguments@)).name,
{
    let mut dir_seen = false;
    let mut dir = String::new();
    let mut name_seen = false;
    let mut name = String::new();
    let mut i: usize = 0;
    assert(texts(arguments@).take(0) =~= Seq::<Seq<char>>::empty());
    while i < arguments.len()
        invariant
            i <= arguments.len(),
            after_arguments(texts(arguments@).take(i as int)) == (Flags {
                dir_seen,
                dir: dir@,
                name_seen,
                name: name@,
            }),
        decreases arguments.len() - i,
    {
        let argument: &str = arguments[i].as_str();
        assert(texts(arguments@).take(i + 1).drop_last() =~= texts(arguments@).take(i as int));
        assert(texts(arguments@).take(i + 1).last() == argument@);
        if !dir_seen && same_text(argument, "--dir") {
            dir_seen = true;
        } else if dir_seen && dir.as_str().is_empty() {
            dir = arguments[i].clone();
        } else if !name_seen && same_text(argument, "--dbfilename") {
            name_seen = true;
        } else if name_seen && name.as_str().is_empty() {
            name = arguments[i].clone();
        }
        i += 1;
    }
    assert(texts(arguments@).take(arguments.len() as int) =~= texts(arguments@));
    (dir, name)
}

} // verus!
