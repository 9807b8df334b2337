use crate::util::text::{push_char, texts};
use vstd::prelude::*;

verus! {

/// The bits of a mode that say what kind of file it is.
pub const BITMASK: u32 = 0o170000;

/// socket
pub const S_IFSOCK: u32 = 0o140000;

/// symbolic link
pub const S_IFLNK: u32 = 0o120000;

/// regular file
pub const S_IFREG: u32 = 0o100000;

/// block device
pub const S_IFBLK: u32 = 0o060000;

/// directory
pub const S_IFDIR: u32 = 0o040000;

/// character device
pub const S_IFCHR: u32 = 0o020000;

/// FIFO
pub const S_IFIFO: u32 = 0o010000;

/// The nine permission bits in the order in which a mode string shows them:
/// read, write and execute for the owner, then for the group, then for others.
pub open spec fn permission_masks() -> Seq<u32> {
    seq![
        0o400u32,
        0o200u32,
        0o100u32,
        0o040u32,
        0o020u32,
        0o010u32,
        0o004u32,
        0o002u32,
        0o001u32,
    ]
}

/// The letter that stands for each of [`permission_masks`] when the bit is set.
pub open spec fn permission_letters() -> Seq<char> {
    seq!['r', 'w', 'x', 'r', 'w', 'x', 'r', 'w', 'x']
}

/// The constants `S_IRUSR`, `S_IWUSR`, `S_IXUSR`, `S_IRGRP`, `S_IWGRP`,
/// `S_IXGRP`, `S_IROTH`, `S_IWOTH` and `S_IXOTH` of the `libc` crate, in that
/// order. Trusted: on Linux they are the octal values 400, 200, 100, 40, 20,
/// 10, 4, 2 and 1.
#[verifier::external_body]
fn permission_bits() -> (bits: [u32; 9])
    ensures
        bits@ == permission_masks(),
{
    [
        libc::S_IRUSR,
        libc::S_IWUSR,
        libc::S_IXUSR,
        libc::S_IRGRP,
        libc::S_IWGRP,
        libc::S_IXGRP,
        libc::S_IROTH,
        libc::S_IWOTH,
        libc::S_IXOTH,
    ]
}

/// Whether any of the three execute bits of `mode` is set.
pub open spec fn has_execute_bit(mode: u32) -> bool {
    mode & 0o100u32 != 0 || mode & 0o010u32 != 0 || mode & 0o001u32 != 0
}

/// Whether the owner, the group or others may execute a file of this mode.
pub fn is_executable(mode: u32) -> (r: bool)
    ensures
        r == has_execute_bit(mode),
{
    let bits = permission_bits();
    let mut i: usize = 2;
    while i < 9
        invariant
            bits@ == permission_masks(),
            i == 2 || i == 5 || i == 8 || i == 11,
            i >= 5 ==> mode & 0o100u32 == 0,
            i >= 8 ==> mode & 0o010u32 == 0,
            i >= 11 ==> mode & 0o001u32 == 0,
        decreases 11 - i,
    {
        if mode & bits[i] != 0 {
            return true;
        }
        i = i + 3;
    }
    false
}

/// Whether the bits of `mode` above the permission bits all lie within those
/// of `file_type`. A mode with none of them set lies within every type.
pub open spec fn type_matches(mode: u32, file_type: u32) -> bool {
    (mode >> 9u32) & (file_type >> 9u32) == mode >> 9u32
}

/// The character for the kind of file, chosen by the first type that
/// [`type_matches`]; empty when none does.
pub open spec fn file_type_chars(mode: u32) -> Seq<char> {
    if type_matches(mode, S_IFREG) {
        seq!['-']
    } else if type_matches(mode, S_IFDIR) {
        seq!['d']
    } else if type_matches(mode, S_IFLNK) {
        seq!['l']
    } else if type_matches(mode, S_IFSOCK) {
        seq!['s']
    } else if type_matches(mode, S_IFBLK) {
        seq!['b']
    } else if type_matches(mode, S_IFCHR) {
        seq!['c']
    } else if type_matches(mode, S_IFIFO) {
        seq!['f']
    } else {
        Seq::empty()
    }
}

/// The character shown for the `i`-th permission bit of `mode`.
pub open spec fn permission_char(mode: u32, i: int) -> char {
    if mode & permission_masks()[i] != 0 {
        permission_letters()[i]
    } else {
        '-'
    }
}

/// The nine permission characters of `mode`, as in `rwxr-xr-x`.
pub open spec fn permission_chars(mode: u32) -> Seq<char> {
    Seq::new(9, |i: int| permission_char(mode, i))
}

/// Renders `mode` the way a long directory listing does: the kind of file,
/// then the nine permission characters.
pub fn stringify_mode(mode: u32) -> (mode_str: String)
    ensures
        mode_str@ == file_type_chars(mode) + permission_chars(mode),
{
    let mut mode_str = String::new();
    let file_vals: [u32; 7] = [S_IFREG, S_IFDIR, S_IFLNK, S_IFSOCK, S_IFBLK, S_IFCHR, S_IFIFO];
    let file_chars: [char; 7] = ['-', 'd', 'l', 's', 'b', 'c', 'f'];
    let mode_shifted: u32 = mode >> 9;
    let mut i: usize = 0;
    let mut found = false;
    while i < 7 && !found
        invariant
            i <= 7,
            mode_shifted == mode >> 9u32,
            file_vals@ == seq![S_IFREG, S_IFDIR, S_IFLNK, S_IFSOCK, S_IFBLK, S_IFCHR, S_IFIFO],
            file_chars@ == seq!['-', 'd', 'l', 's', 'b', 'c', 'f'],
            !found ==> mode_str@ == Seq::<char>::empty(),
            !found ==> forall|k: int| 0 <= k < i ==> !type_matches(mode, #[trigger] file_vals@[k]),
            found ==> mode_str@ == file_type_chars(mode),
        decreases 7 - i + if found { 0int } else { 1int },
    {
        let val_shifted: u32 = file_vals[i] >> 9;
        if mode_shifted & val_shifted == mode_shifted {
            push_char(&mut mode_str, file_chars[i]);
            found = true;
        } else {
            i = i + 1;
        }
    }
    assert(mode_str@ == file_type_chars(mode));

    let bits = permission_bits();
    let letters: [char; 9] = ['r', 'w', 'x', 'r', 'w', 'x', 'r', 'w', 'x'];
    let mut j: usize = 0;
    while j < 9
        invariant
            j <= 9,
            bits@ == permission_masks(),
            letters@ == permission_letters(),
            mode_str@ == file_type_chars(mode) + permission_chars(mode).take(j as int),
        decreases 9 - j,
    {
        if mode & bits[j] != 0 {
            push_char(&mut mode_str, letters[j]);
        } else {
            push_char(&mut mode_str, '-');
        }
        j = j + 1;
    }
    mode_str
}

/// The command line that opens `path` with a program: the program and its
/// own arguments as given, then the path as the last argument.
pub fn open_with_command(path: &str, args: &Vec<String>) -> (command: Vec<String>)
    requires
        args.len() > 0,
    ensures
        texts(command@) == texts(args@).push(path@),
{
    let mut command: Vec<String> = Vec::new();
    let mut i: usize = 0;
    while i < args.len()
        invariant
            i <= args.len(),
            command@.len() == i,
            forall|k: int| 0 <= k < i ==> command@[k]@ == args@[k]@,
        decreases args.len() - i,
    {
        command.push(args[i].clone());
        i = i + 1;
    }
    command.push(path.to_owned());
    assert(texts(command@) =~= texts(args@).push(path@));
    command
}

} // verus!
