//! Names of received files: which names are refused, how a name is made
//! portable to Windows, and how a free destination name is chosen.

use vstd::prelude::*;
use crate::text::{chars_of, decimal, push_decimal, push_text, string_of, text_eq};

verus! {

/// The message for a refused file name.
pub open spec fn unsafe_name_message() -> Seq<char> {
    "The transfer contains an unsafe file name"@
}

/// A name that could leave the download directory or cannot name a file:
/// empty, `.`, `..`, or holding `/`, `\` or NUL.
pub open spec fn is_unsafe_file_name(n: Seq<char>) -> bool {
    ||| n.len() == 0
    ||| n == seq!['.']
    ||| n == seq!['.', '.']
    ||| n.contains('/')
    ||| n.contains('\\')
    ||| n.contains('\0')
}

/// Refuses a file name that is unsafe to create in the download directory.
pub fn validate_file_name(name: &str) -> (r: Result<(), String>)
    ensures
        r is Err <==> is_unsafe_file_name(name@),
        r matches Err(m) ==> m@ == unsafe_name_message(),
{
    let cs = chars_of(name);
    let n = cs.len();
    let mut bad = n == 0 || (n == 1 && cs[0] == '.') || (n == 2 && cs[0] == '.' && cs[1] == '.');
    if n == 1 {
        assert(cs@ == seq![cs@[0]]);
    }
    if n == 2 {
        assert(cs@ == seq![cs@[0], cs@[1]]);
    }
    let mut i: usize = 0;
    while i < n
        invariant
            i <= n,
            n == cs@.len(),
            cs@ == name@,
            bad == (n == 0 || cs@ == seq!['.'] || cs@ == seq!['.', '.'] || exists|j: int|
                0 <= j < i && (cs@[j] == '/' || cs@[j] == '\\' || cs@[j] == '\0')),
        decreases n - i,
    {
        let c = cs[i];
        if c == '/' || c == '\\' || c == '\0' {
            bad = true;
        }
        i = i + 1;
    }
    if bad {
        assert(cs@.contains('/') || cs@.contains('\\') || cs@.contains('\0') || n == 0 || cs@
            == seq!['.'] || cs@ == seq!['.', '.']);
        Err("The transfer contains an unsafe file name".to_owned())
    } else {
        Ok(())
    }
}

/// A control character (Unicode general category `Cc`).
pub open spec fn is_control_char(c: char) -> bool {
    (c as u32) <= 0x1f || (0x7f <= (c as u32) && (c as u32) <= 0x9f)
}

/// A character that Windows does not allow in file names.
pub open spec fn is_windows_reserved_char(c: char) -> bool {
    c == '<' || c == '>' || c == ':' || c == '"' || c == '|' || c == '?' || c == '*'
}

/// Control characters and characters refused by Windows become `_`.
pub open spec fn portable_char(c: char) -> char {
    if is_control_char(c) || is_windows_reserved_char(c) {
        '_'
    } else {
        c
    }
}

/// `s` without its trailing dots and spaces.
pub open spec fn strip_dots_and_spaces(s: Seq<char>) -> Seq<char>
    decreases s.len(),
{
    if s.len() > 0 && (s.last() == '.' || s.last() == ' ') {
        strip_dots_and_spaces(s.drop_last())
    } else {
        s
    }
}

/// The index of the last `.` in `s`, or -1.
pub open spec fn last_dot(s: Seq<char>) -> int
    decreases s.len(),
{
    if s.len() == 0 {
        -1
    } else if s.last() == '.' {
        s.len() - 1
    } else {
        last_dot(s.drop_last())
    }
}

/// The stem of a file name that is a single path component
/// (`Path::file_stem`): the part before the last `.`, unless the name is
/// `..`, has no `.`, or starts with its only `.`.
pub open spec fn file_stem(s: Seq<char>) -> Seq<char> {
    if s == seq!['.', '.'] || last_dot(s) <= 0 {
        s
    } else {
        s.take(last_dot(s))
    }
}

/// The extension of such a name (`Path::extension`): the part after the
/// last `.`, when there is a stem before it.
pub open spec fn file_extension(s: Seq<char>) -> Option<Seq<char>> {
    if s == seq!['.', '.'] || last_dot(s) <= 0 {
        None
    } else {
        Some(s.skip(last_dot(s) + 1))
    }
}

/// ASCII letters in upper case, other characters unchanged.
pub open spec fn ascii_upper(c: char) -> char {
    if 'a' <= c && c <= 'z' {
        ((c as u32) - 32) as char
    } else {
        c
    }
}

/// A stem (already in upper case) that Windows reserves for a device:
/// `CON`, `PRN`, `AUX`, `NUL`, or `COM1`..`COM9`, `LPT1`..`LPT9`.
pub open spec fn is_reserved_device_stem(u: Seq<char>) -> bool {
    ||| u == seq!['C', 'O', 'N']
    ||| u == seq!['P', 'R', 'N']
    ||| u == seq!['A', 'U', 'X']
    ||| u == seq!['N', 'U', 'L']
    ||| (u.len() == 4 && (u.take(3) == seq!['C', 'O', 'M'] || u.take(3) == seq!['L', 'P', 'T'])
        && '1' <= u[3] && u[3] <= '9')
}

/// The portable form of a safe file name: unportable characters replaced,
/// trailing dots and spaces removed, `File` when nothing is left, and a
/// leading `_` before a stem that Windows reserves.
pub open spec fn portable_name(n: Seq<char>) -> Seq<char> {
    let stripped = strip_dots_and_spaces(n.map_values(|c: char| portable_char(c)));
    let s = if stripped.len() == 0 {
        seq!['F', 'i', 'l', 'e']
    } else {
        stripped
    };
    if is_reserved_device_stem(file_stem(s).map_values(|c: char| ascii_upper(c))) {
        seq!['_'] + s
    } else {
        s
    }
}

fn portable_char_exec(c: char) -> (r: char)
    ensures
        r == portable_char(c),
{
    let u = c as u32;
    if u <= 0x1f || (0x7f <= u && u <= 0x9f) || c == '<' || c == '>' || c == ':' || c == '"'
        || c == '|' || c == '?' || c == '*' {
        '_'
    } else {
        c
    }
}

fn ascii_upper_exec(c: char) -> (r: char)
    ensures
        r == ascii_upper(c),
{
    if 'a' <= c && c <= 'z' {
        let u = ((c as u32) - 32) as u8;
        u as char
    } else {
        c
    }
}

/// The index of the last `.` in `s`, when there is one.
fn find_last_dot(s: &Vec<char>) -> (r: Option<usize>)
    ensures
        r matches Some(i) ==> i as int == last_dot(s@) && i < s@.len(),
        r is None ==> last_dot(s@) == -1,
{
    let mut i: usize = s.len();
    assert(s@.take(s@.len() as int) == s@);
    while i > 0
        invariant
            i <= s@.len(),
            last_dot(s@) == last_dot(s@.take(i as int)),
        decreases i,
    {
        if s[i - 1] == '.' {
            return Some(i - 1);
        }
        assert(s@.take(i as int).drop_last() == s@.take(i - 1));
        i = i - 1;
    }
    None
}

/// The stem and extension of a single-component file name
/// (`Path::file_stem`, `Path::extension`).
pub fn stem_and_extension(s: &Vec<char>) -> (r: (Vec<char>, Option<Vec<char>>))
    ensures
        r.0@ == file_stem(s@),
        r.1 matches Some(e) ==> file_extension(s@) == Some(e@),
        r.1 is None ==> file_extension(s@) is None,
{
    let is_parent = s.len() == 2 && s[0] == '.' && s[1] == '.';
    if s.len() == 2 {
        assert(seq!['.', '.'][0] == '.' && seq!['.', '.'][1] == '.');
        if is_parent {
            assert(s@ =~= seq!['.', '.']);
        }
    } else {
        assert(s@ != seq!['.', '.']);
    }
    let dot = find_last_dot(s);
    match dot {
        Some(d) if d > 0 && !is_parent => {
            let mut stem: Vec<char> = Vec::new();
            let mut ext: Vec<char> = Vec::new();
            let mut i: usize = 0;
            while i < s.len()
                invariant
                    0 < d < s@.len(),
                    i <= s@.len(),
                    stem@ == s@.take(if i <= d { i as int } else { d as int }),
                    ext@ == (if i <= d + 1 { Seq::<char>::empty() } else { s@.subrange(d + 1, i as int) }),
                decreases s.len() - i,
            {
                if i < d {
                    stem.push(s[i]);
                } else if i > d {
                    ext.push(s[i]);
                }
                i = i + 1;
            }
            (stem, Some(ext))
        },
        _ => {
            let mut stem: Vec<char> = Vec::new();
            let mut i: usize = 0;
            while i < s.len()
                invariant
                    i <= s@.len(),
                    stem@ == s@.take(i as int),
                decreases s.len() - i,
            {
                stem.push(s[i]);
                i = i + 1;
            }
            assert(s@.take(s@.len() as int) == s@);
            (stem, None)
        },
    }
}

/// Whether an upper-case stem names a Windows device.
fn reserved_device_stem(u: &Vec<char>) -> (r: bool)
    ensures
        r == is_reserved_device_stem(u@),
{
    let n = u.len();
    if n == 3 {
        assert(u@ == seq![u@[0], u@[1], u@[2]]);
        (u[0] == 'C' && u[1] == 'O' && u[2] == 'N') || (u[0] == 'P' && u[1] == 'R' && u[2] == 'N')
            || (u[0] == 'A' && u[1] == 'U' && u[2] == 'X') || (u[0] == 'N' && u[1] == 'U' && u[2]
            == 'L')
    } else if n == 4 {
        assert(u@.take(3) == seq![u@[0], u@[1], u@[2]]);
        assert(u@ != seq!['C', 'O', 'N']);
        assert(u@ != seq!['P', 'R', 'N']);
        assert(u@ != seq!['A', 'U', 'X']);
        assert(u@ != seq!['N', 'U', 'L']);
        ((u[0] == 'C' && u[1] == 'O' && u[2] == 'M') || (u[0] == 'L' && u[1] == 'P' && u[2] == 'T'))
            && '1' <= u[3] && u[3] <= '9'
    } else {
        assert(u@ != seq!['C', 'O', 'N']);
        assert(u@ != seq!['P', 'R', 'N']);
        assert(u@ != seq!['A', 'U', 'X']);
        assert(u@ != seq!['N', 'U', 'L']);
        false
    }
}

/// Makes a safe file name portable to Windows; refuses an unsafe one.
pub fn portable_file_name(file_name: &str) -> (r: Result<String, String>)
    ensures
        r is Err <==> is_unsafe_file_name(file_name@),
        r matches Err(m) ==> m@ == unsafe_name_message(),
        r matches Ok(p) ==> p@ == portable_name(file_name@),
{
    validate_file_name(file_name)?;
    let cs = chars_of(file_name);
    let ghost mapped = cs@.map_values(|c: char| portable_char(c));
    let mut m: Vec<char> = Vec::new();
    let mut i: usize = 0;
    while i < cs.len()
        invariant
            i <= cs@.len(),
            mapped == cs@.map_values(|c: char| portable_char(c)),
            m@ == mapped.take(i as int),
        decreases cs.len() - i,
    {
        m.push(portable_char_exec(cs[i]));
        i = i + 1;
        assert(m@ == mapped.take(i as int));
    }
    assert(mapped.take(cs@.len() as int) == mapped);
    while m.len() > 0 && (m[m.len() - 1] == '.' || m[m.len() - 1] == ' ')
        invariant
            strip_dots_and_spaces(mapped) == strip_dots_and_spaces(m@),
        decreases m.len(),
    {
        m.pop();
    }
    if m.len() == 0 {
        m.push('F');
        m.push('i');
        m.push('l');
        m.push('e');
        assert(m@ == seq!['F', 'i', 'l', 'e']);
    }
    let (stem, _) = stem_and_extension(&m);
    let mut upper: Vec<char> = Vec::new();
    let mut j: usize = 0;
    while j < stem.len()
        invariant
            j <= stem@.len(),
            upper@ == stem@.take(j as int).map_values(|c: char| ascii_upper(c)),
        decreases stem.len() - j,
    {
        upper.push(ascii_upper_exec(stem[j]));
        j = j + 1;
        assert(upper@ == stem@.take(j as int).map_values(|c: char| ascii_upper(c)));
    }
    assert(stem@.take(stem@.len() as int) == stem@);
    if reserved_device_stem(&upper) {
        let mut out: Vec<char> = Vec::new();
        out.push('_');
        let mut k: usize = 0;
        while k < m.len()
            invariant
                k <= m@.len(),
                out@ == seq!['_'] + m@.take(k as int),
            decreases m.len() - k,
        {
            out.push(m[k]);
            k = k + 1;
            assert(out@ == seq!['_'] + m@.take(k as int));
        }
        assert(m@.take(m@.len() as int) == m@);
        Ok(string_of(&out))
    } else {
        Ok(string_of(&m))
    }
}

/// Stripping trailing dots and spaces keeps a prefix, which does not end
/// with a dot or a space.
proof fn lemma_strip_is_prefix(s: Seq<char>)
    ensures
        strip_dots_and_spaces(s).len() <= s.len(),
        strip_dots_and_spaces(s) == s.take(strip_dots_and_spaces(s).len() as int),
        strip_dots_and_spaces(s).len() > 0 ==> strip_dots_and_spaces(s).last() != '.'
            && strip_dots_and_spaces(s).last() != ' ',
    decreases s.len(),
{
    if s.len() > 0 && (s.last() == '.' || s.last() == ' ') {
        lemma_strip_is_prefix(s.drop_last());
        let t = strip_dots_and_spaces(s.drop_last());
        assert(s.drop_last().take(t.len() as int) == s.take(t.len() as int));
    } else {
        assert(s.take(s.len() as int) == s);
    }
}

/// A portable name is itself a safe name, holds no control character and
/// no character Windows refuses, and does not end with a dot or a space.
pub proof fn lemma_portable_name_is_safe(n: Seq<char>)
    requires
        !is_unsafe_file_name(n),
    ensures
        !is_unsafe_file_name(portable_name(n)),
        forall|i: int| 0 <= i < portable_name(n).len() ==> !is_control_char(
            #[trigger] portable_name(n)[i],
        ) && !is_windows_reserved_char(portable_name(n)[i]),
        portable_name(n).last() != '.' && portable_name(n).last() != ' ',
{
    let mapped = n.map_values(|c: char| portable_char(c));
    let stripped = strip_dots_and_spaces(mapped);
    lemma_strip_is_prefix(mapped);
    let s = if stripped.len() == 0 {
        seq!['F', 'i', 'l', 'e']
    } else {
        stripped
    };
    assert forall|i: int| 0 <= i < s.len() implies {
        let c = #[trigger] s[i];
        &&& !is_control_char(c)
        &&& !is_windows_reserved_char(c)
        &&& c != '/' && c != '\\' && c != '\0'
    } by {
        if stripped.len() > 0 {
            assert(s[i] == mapped[i]);
            assert(mapped[i] == portable_char(n[i]));
            if n[i] == '/' || n[i] == '\\' {
                assert(n.contains(n[i]));
            }
        }
    }
    assert(s.len() > 0);
    assert(s.last() != '.' && s.last() != ' ');
    assert(s != seq!['.']) by {
        if s == seq!['.'] {
            assert(s.last() == '.');
        }
    }
    assert(s != seq!['.', '.']) by {
        if s == seq!['.', '.'] {
            assert(s.last() == '.');
        }
    }
    let p = portable_name(n);
    if p != s {
        assert(p == seq!['_'] + s);
        assert forall|i: int| 0 <= i < p.len() implies {
            let c = #[trigger] p[i];
            &&& !is_control_char(c)
            &&& !is_windows_reserved_char(c)
            &&& c != '/' && c != '\\' && c != '\0'
        } by {
            if i > 0 {
                assert(p[i] == s[i - 1]);
            }
        }
        assert(p.last() == s.last());
        assert(p != seq!['.']) by {
            if p == seq!['.'] {
                assert(p[0] == '_');
            }
        }
        assert(p != seq!['.', '.']) by {
            if p == seq!['.', '.'] {
                assert(p[0] == '_');
            }
        }
        assert(!p.contains('/') && !p.contains('\\') && !p.contains('\0'));
    } else {
        assert(!s.contains('/') && !s.contains('\\') && !s.contains('\0'));
    }
}

/// The last dot lies inside the text, or there is none.
proof fn lemma_last_dot_bounds(s: Seq<char>)
    ensures
        -1 <= last_dot(s) < s.len(),
    decreases s.len(),
{
    if s.len() > 0 && s.last() != '.' {
        lemma_last_dot_bounds(s.drop_last());
    }
}

/// A portable name is left as it is when made portable again.
pub proof fn lemma_portable_name_is_stable(n: Seq<char>)
    requires
        !is_unsafe_file_name(n),
    ensures
        portable_name(portable_name(n)) == portable_name(n),
{
    let p = portable_name(n);
    lemma_portable_name_is_safe(n);
    let mapped = p.map_values(|c: char| portable_char(c));
    assert(mapped =~= p);
    assert(p.len() > 0);
    assert(strip_dots_and_spaces(p) == p);
    let stripped = strip_dots_and_spaces(n.map_values(|c: char| portable_char(c)));
    let s = if stripped.len() == 0 {
        seq!['F', 'i', 'l', 'e']
    } else {
        stripped
    };
    let u = file_stem(p).map_values(|c: char| ascii_upper(c));
    if p == s {
        assert(!is_reserved_device_stem(u));
    } else {
        assert(p == seq!['_'] + s);
        assert(p[0] == '_');
        assert(p != seq!['.', '.']);
        lemma_last_dot_bounds(p);
        assert(file_stem(p).len() > 0 && file_stem(p)[0] == '_');
        assert(u[0] == '_');
        assert(!is_reserved_device_stem(u)) by {
            if u == seq!['C', 'O', 'N'] || u == seq!['P', 'R', 'N'] || u == seq!['A', 'U', 'X'] || u
                == seq!['N', 'U', 'L'] {
                assert(u[0] != '_');
            }
            if u.len() == 4 && (u.take(3) == seq!['C', 'O', 'M'] || u.take(3) == seq!['L', 'P', 'T']) {
                assert(u.take(3)[0] == u[0]);
            }
        }
    }
}

/// The name tried for copy number `copy` of a file: the portable name
/// itself first, then `stem (n).extension`, or `stem (n)` without an
/// extension.
pub open spec fn candidate_name(portable: Seq<char>, copy: nat) -> Seq<char> {
    if copy == 0 {
        portable
    } else {
        match file_extension(portable) {
            Some(e) => file_stem(portable) + " ("@ + decimal(copy) + ")."@ + e,
            None => file_stem(portable) + " ("@ + decimal(copy) + ")"@,
        }
    }
}

/// The name tried for copy number `copy_number` of a file whose portable
/// name is `portable`.
pub fn destination_candidate(portable: &str, copy_number: u32) -> (r: String)
    ensures
        r@ == candidate_name(portable@, copy_number as nat),
{
    let p = chars_of(portable);
    if copy_number == 0 {
        return string_of(&p);
    }
    let (stem, ext) = stem_and_extension(&p);
    let mut out = stem;
    push_text(&mut out, " (");
    push_decimal(&mut out, copy_number as u64);
    match ext {
        Some(e) => {
            push_text(&mut out, ").");
            let mut i: usize = 0;
            let ghost before = out@;
            while i < e.len()
                invariant
                    i <= e@.len(),
                    out@ == before + e@.take(i as int),
                decreases e.len() - i,
            {
                out.push(e[i]);
                i = i + 1;
                assert(out@ == before + e@.take(i as int));
            }
            assert(e@.take(e@.len() as int) == e@);
        },
        None => {
            push_text(&mut out, ")");
        },
    }
    string_of(&out)
}

/// Names already promised to files of the transfer being received.
pub struct ReservedNames {
    names: Vec<String>,
}

impl View for ReservedNames {
    type V = Set<Seq<char>>;

    closed spec fn view(&self) -> Set<Seq<char>> {
        Set::new(|n: Seq<char>| exists|i: int| 0 <= i < self.names@.len() && self.names@[i]@ == n)
    }
}

impl ReservedNames {
    /// No name reserved.
    pub fn new() -> (r: ReservedNames)
        ensures
            r@ == Set::<Seq<char>>::empty(),
    {
        let r = ReservedNames { names: Vec::new() };
        assert(r@ =~= Set::<Seq<char>>::empty());
        r
    }

    /// Whether `name` is reserved.
    pub fn contains(&self, name: &str) -> (r: bool)
        ensures
            r == self@.contains(name@),
    {
        let mut i: usize = 0;
        while i < self.names.len()
            invariant
                i <= self.names@.len(),
                forall|j: int| 0 <= j < i ==> self.names@[j]@ != name@,
            decreases self.names.len() - i,
        {
            if text_eq(self.names[i].as_str(), name) {
                return true;
            }
            i = i + 1;
        }
        false
    }

    /// Reserves `name`; true when it was not reserved before
    /// (`HashSet::insert`).
    pub fn insert(&mut self, name: String) -> (added: bool)
        ensures
            added == !old(self)@.contains(name@),
            final(self)@ == old(self)@.insert(name@),
    {
        if self.contains(name.as_str()) {
            assert(self@ =~= self@.insert(name@));
            false
        } else {
            let ghost prev = self@;
            let ghost n = name@;
            self.names.push(name);
            assert(self@ =~= prev.insert(n)) by {
                assert(self.names@[self.names@.len() - 1]@ == n);
                assert forall|x: Seq<char>| prev.contains(x) implies self@.contains(x) by {
                    let j = choose|j: int| 0 <= j < old(self).names@.len() && old(self).names@[j]@ == x;
                    assert(self.names@[j] == old(self).names@[j]);
                }
            }
            true
        }
    }
}

/// What to do after trying one candidate name.
pub enum DestinationStep {
    /// Use this name.
    Chosen(String),
    /// Try the given copy number next.
    TryNext(u32),
    /// No name was free; the message says so.
    Exhausted(String),
}

/// The number of copy numbers tried before giving up.
pub const MAX_COPY_NUMBERS: u32 = 10000;

/// Decides on candidate number `copy_number` for a file named `file_name`,
/// given whether a file of that candidate name already exists. An unsafe
/// name is refused and nothing is reserved. Otherwise the candidate is made
/// from the portable form of the name; one that does not exist and is not
/// yet reserved is reserved and chosen; else the next copy number is tried,
/// until all have been.
pub fn unique_destination(
    file_name: &str,
    copy_number: u32,
    exists_on_disk: bool,
    reserved: &mut ReservedNames,
) -> (r: Result<DestinationStep, String>)
    requires
        copy_number < MAX_COPY_NUMBERS,
    ensures
        is_unsafe_file_name(file_name@) ==> (r matches Err(m) && m@ == unsafe_name_message()
            && final(reserved)@ == old(reserved)@),
        !is_unsafe_file_name(file_name@) ==> ({
            let c = candidate_name(portable_name(file_name@), copy_number as nat);
            &&& r matches Ok(step)
            &&& if !exists_on_disk && !old(reserved)@.contains(c) {
                &&& step matches DestinationStep::Chosen(n) && n@ == c
                &&& final(reserved)@ == old(reserved)@.insert(c)
            } else {
                &&& final(reserved)@ == old(reserved)@
                &&& copy_number + 1 < MAX_COPY_NUMBERS ==> step == DestinationStep::TryNext(
                    (copy_number + 1) as u32,
                )
                &&& copy_number + 1 >= MAX_COPY_NUMBERS ==> (step matches DestinationStep::Exhausted(m)
                    && m@ == "Could not choose a safe destination for "@ + file_name@)
            }
        }),
{
    let portable = portable_file_name(file_name)?;
    let candidate = destination_candidate(portable.as_str(), copy_number);
    if !exists_on_disk {
        if reserved.insert(candidate.clone()) {
            return Ok(DestinationStep::Chosen(candidate));
        }
    }
    if copy_number + 1 < MAX_COPY_NUMBERS {
        Ok(DestinationStep::TryNext(copy_number + 1))
    } else {
        let mut m: Vec<char> = Vec::new();
        push_text(&mut m, "Could not choose a safe destination for ");
        push_text(&mut m, file_name);
        Ok(DestinationStep::Exhausted(string_of(&m)))
    }
}

/// The name of the partial file that holds file `index` of a transfer while
/// it is received: `.filedrop-<transfer id>-<index>.part`.
pub fn temporary_file_name(transfer_id: &str, index: usize) -> (r: String)
    ensures
        r@ == ".filedrop-"@ + transfer_id@ + "-"@ + decimal(index as nat) + ".part"@,
{
    let mut m: Vec<char> = Vec::new();
    push_text(&mut m, ".filedrop-");
    push_text(&mut m, transfer_id);
    push_text(&mut m, "-");
    push_decimal(&mut m, index as u64);
    push_text(&mut m, ".part");
    string_of(&m)
}

} // verus!
