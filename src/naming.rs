use vstd::prelude::*;

use crate::text::push_char;

verus! {

/// Whether a character is alphabetic or numeric in the Unicode sense.
pub uninterp spec fn unicode_alphanumeric(c: char) -> bool;

/// Relies on `char::is_alphanumeric`: whether the character is alphabetic or
/// numeric, which depends on the character alone.
#[verifier::external_body]
fn is_alphanumeric(c: char) -> (r: bool)
    ensures
        r == unicode_alphanumeric(c),
{
    c.is_alphanumeric()
}

pub open spec fn is_digit(c: char) -> bool {
    '0' <= c && c <= '9'
}

pub open spec fn two_digits(s: Seq<char>, i: int) -> bool {
    is_digit(s[i]) && is_digit(s[i + 1])
}

/// A time stamp `Y...-MM-DD HH-MM-SS`: a year of at least four digits, led by
/// a sign when it lies outside 0 to 9999, then month, day, hour, minute and
/// second in two digits each.
pub open spec fn is_stamp(s: Seq<char>) -> bool {
    let n = s.len() as int;
    &&& n >= 19
    &&& (is_digit(s[0]) || s[0] == '+' || s[0] == '-')
    &&& forall|i: int| 1 <= i < n - 15 ==> is_digit(#[trigger] s[i])
    &&& s[n - 15] == '-' && two_digits(s, n - 14)
    &&& s[n - 12] == '-' && two_digits(s, n - 11)
    &&& s[n - 9] == ' ' && two_digits(s, n - 8)
    &&& s[n - 6] == '-' && two_digits(s, n - 5)
    &&& s[n - 3] == '-' && two_digits(s, n - 2)
}

/// Relies on `chrono::Local::now` and `DateTime::format`: the local date and
/// time now, written with the pattern `%Y-%m-%d %H-%M-%S`, whose fields chrono
/// pads to four (year) and two digits.
#[verifier::external_body]
fn local_time_text(pattern: &str) -> (r: String)
    requires
        pattern@ == "%Y-%m-%d %H-%M-%S"@,
    ensures
        is_stamp(r@),
{
    chrono::Local::now().format(pattern).to_string()
}

/// Characters that may stay in a file name.
pub open spec fn keeps(c: char) -> bool {
    c == '-' || c == '_' || c == ' ' || unicode_alphanumeric(c)
}

/// `s` without the characters that may not stay in a file name.
pub open spec fn sanitize_spec(s: Seq<char>) -> Seq<char>
    decreases s.len(),
{
    if s.len() == 0 {
        Seq::empty()
    } else if keeps(s.last()) {
        sanitize_spec(s.drop_last()).push(s.last())
    } else {
        sanitize_spec(s.drop_last())
    }
}

/// Keeps the letters, digits, spaces, hyphens and underscores of `name`, in
/// order.
pub fn sanitize_name(name: &str) -> (r: String)
    ensures
        r@ == sanitize_spec(name@),
{
    let n = name.unicode_len();
    let mut r = String::new();
    let mut i: usize = 0;
    while i < n
        invariant
            i <= n,
            n == name@.len(),
            r@ == sanitize_spec(name@.subrange(0, i as int)),
        decreases n - i,
    {
        let c = name.get_char(i);
        assert(name@.subrange(0, i + 1).drop_last() =~= name@.subrange(0, i as int));
        if c == '-' || c == '_' || c == ' ' || is_alphanumeric(c) {
            push_char(&mut r, c);
        }
        i = i + 1;
    }
    assert(name@.subrange(0, n as int) =~= name@);
    r
}

/// The name of the video file of a chart called `name`, made at `stamp`.
pub open spec fn output_name_spec(stamp: Seq<char>, name: Seq<char>) -> Seq<char> {
    stamp + seq![' '] + sanitize_spec(name) + ".mp4"@
}

/// The video file name for a chart called `name` made at the time written
/// as `stamp`.
pub fn output_name_at(stamp: &str, name: &str) -> (r: String)
    ensures
        r@ == output_name_spec(stamp@, name@),
{
    let mut r = String::from_str(stamp);
    push_char(&mut r, ' ');
    let safe = sanitize_name(name);
    r.append(safe.as_str());
    r.append(".mp4");
    assert(r@ =~= output_name_spec(stamp@, name@));
    r
}

/// The video file name for a chart called `name`, stamped with the local time
/// now.
pub fn output_name(name: &str) -> (r: String)
    ensures
        exists|stamp: Seq<char>| is_stamp(stamp) && r@ == output_name_spec(stamp, name@),
{
    let stamp = local_time_text("%Y-%m-%d %H-%M-%S");
    let r = output_name_at(stamp.as_str(), name);
    assert(is_stamp(stamp@) && r@ == output_name_spec(stamp@, name@));
    r
}

/// What is found at a path.
#[derive(Clone, Copy, Debug, PartialEq, Eq, Structural)]
pub enum EntryKind {
    Missing,
    File,
    Other,
}

#[derive(Clone, Copy, Debug, PartialEq, Eq, Structural)]
pub enum PresetsError {
    /// Something other than a file stands where the presets file belongs.
    NotAFile,
}

/// Checks the place of the presets file: usable when nothing is there yet or
/// a file is.
pub fn get_presets_file(path: String, entry: EntryKind) -> (r: Result<String, PresetsError>)
    ensures
        entry == EntryKind::Other ==> r == Err::<String, PresetsError>(PresetsError::NotAFile),
        entry != EntryKind::Other ==> (r matches Ok(p) && p@ == path@),
{
    if entry == EntryKind::Other {
        Err(PresetsError::NotAFile)
    } else {
        Ok(path)
    }
}

} // verus!
