//! Desktop wallpaper requests: the path handed to the system and the checks
//! made on the screen index.
use vstd::prelude::*;
use vstd::string::StrSliceExecFns;
use crate::text::{spec_decimal, push_decimal};

verus! {

/// `path` with a leading `~` replaced by the home directory, when both are there.
pub open spec fn spec_expand_tilde(path: Seq<char>, home: Option<Seq<char>>) -> Seq<char> {
    if path.len() > 0 && path[0] == '~' && home is Some {
        home->0 + path.drop_first()
    } else {
        path
    }
}

/// Expands a leading `~` to the home directory (`home`, as the environment
/// gives it); the path is unchanged without one or the other.
pub fn expand_tilde(path: &str, home: Option<&str>) -> (r: String)
    ensures
        r@ == spec_expand_tilde(path@, match home {
            Some(h) => Some(h@),
            None => None,
        }),
{
    let n = path.unicode_len();
    if n > 0 && path.get_char(0) == '~' {
        if let Some(h) = home {
            let mut r = String::from_str(h);
            let rest = path.substring_char(1, n);
            r.append(rest);
            assert(path@.subrange(1, n as int) =~= path@.drop_first());
            return r;
        }
    }
    String::from_str(path)
}

/// The message for a screen index out of range.
pub open spec fn screen_index_message(index: nat, count: nat) -> Seq<char> {
    "screen index "@ + spec_decimal(index) + " out of range (have "@ + spec_decimal(count) + ")"@
}

/// Checks a screen index against the number of screens: an error naming
/// both when the index is out of range.
pub fn check_screen_index(index: usize, count: usize) -> (r: Result<(), String>)
    ensures
        index < count <==> r is Ok,
        r matches Err(m) ==> m@ == screen_index_message(index as nat, count as nat),
{
    if index < count {
        Ok(())
    } else {
        let mut m = String::from_str("screen index ");
        push_decimal(&mut m, index as u64);
        m.append(" out of range (have ");
        push_decimal(&mut m, count as u64);
        m.append(")");
        Err(m)
    }
}

/// Checks that there is a screen to set a wallpaper on.
pub fn check_any_screen(count: usize) -> (r: Result<(), String>)
    ensures
        count > 0 <==> r is Ok,
        r matches Err(m) ==> m@ == "no screens found"@,
{
    if count > 0 {
        Ok(())
    } else {
        Err(String::from_str("no screens found"))
    }
}

} // verus!
