//! Content types inferred from file extensions.

use vstd::prelude::*;

verus! {

/// The characters after the last separator `/` of a path.
pub open spec fn file_name(path: Seq<char>) -> Seq<char>
    decreases path.len(),
{
    if path.len() == 0 || path.last() == '/' {
        Seq::empty()
    } else {
        file_name(path.drop_last()).push(path.last())
    }
}

/// The position of the last `.` in `name`, if any.
pub open spec fn last_dot(name: Seq<char>) -> Option<int>
    decreases name.len(),
{
    if name.len() == 0 {
        None
    } else if name.last() == '.' {
        Some(name.len() - 1)
    } else {
        last_dot(name.drop_last())
    }
}

/// The extension of a path: what follows the last `.` of its file name,
/// where that `.` is not the name's first character.
pub open spec fn extension_of(path: Seq<char>) -> Option<Seq<char>> {
    let name = file_name(path);
    match last_dot(name) {
        Some(k) => if k > 0 {
            Some(name.skip(k + 1))
        } else {
            None
        },
        None => None,
    }
}

/// The content type that the web framework's MIME table gives an extension.
pub open spec fn mime_of_extension(ext: Seq<char>) -> Option<Seq<char>> {
    if ext == "html"@ {
        Some("text/html;charset=utf-8"@)
    } else if ext == "js"@ || ext == "mjs"@ || ext == "jsonp"@ {
        Some("application/javascript;charset=utf-8"@)
    } else if ext == "json"@ {
        Some("application/json"@)
    } else if ext == "css"@ {
        Some("text/css;charset=utf-8"@)
    } else if ext == "svg"@ {
        Some("image/svg+xml"@)
    } else if ext == "xml"@ {
        Some("application/xml;charset=utf-8"@)
    } else {
        None
    }
}

/// The content type of the file at `path`, if its extension has one.
pub open spec fn content_type_for(path: Seq<char>) -> Option<Seq<char>> {
    match extension_of(path) {
        Some(ext) => mime_of_extension(ext),
        None => None,
    }
}

/// Relies on `http_types::Mime::from_extension` (re-exported by tide as
/// `tide::http::mime::Mime`): a fixed table from extension to MIME constant,
/// written out with `Display` as essence plus `;charset=utf-8` for the text
/// types.
#[verifier::external_body]
fn mime_for_extension(ext: &str) -> (r: Option<String>)
    ensures
        match r {
            Some(m) => mime_of_extension(ext@) == Some(m@),
            None => mime_of_extension(ext@) is None,
        },
{
    tide::http::mime::Mime::from_extension(ext).map(|m| m.to_string())
}

/// The extension of `path`, as `extension_of` describes it.
pub fn extension(path: &str) -> (r: Option<String>)
    ensures
        match r {
            Some(e) => extension_of(path@) == Some(e@),
            None => extension_of(path@) is None,
        },
{
    let n = path.unicode_len();
    let mut name_start: usize = 0;
    let mut dot: Option<usize> = None;
    let mut i: usize = 0;
    while i < n
        invariant
            n == path@.len(),
            name_start <= i <= n,
            file_name(path@.take(i as int)) == path@.subrange(name_start as int, i as int),
            match dot {
                Some(k) => name_start <= k < i && last_dot(
                    path@.subrange(name_start as int, i as int),
                ) == Some(k - name_start),
                None => last_dot(path@.subrange(name_start as int, i as int)) is None,
            },
        decreases n - i,
    {
        let c = path.get_char(i);
        proof {
            assert(path@.take(i + 1).drop_last() =~= path@.take(i as int));
            assert(path@.take(i + 1).last() == c);
        }
        if c == '/' {
            name_start = i + 1;
            dot = None;
            assert(path@.subrange(name_start as int, i + 1) =~= Seq::<char>::empty());
        } else {
            assert(path@.subrange(name_start as int, i + 1) =~= path@.subrange(
                name_start as int,
                i as int,
            ).push(c));
            assert(path@.subrange(name_start as int, i + 1).drop_last() =~= path@.subrange(
                name_start as int,
                i as int,
            ));
            if c == '.' {
                dot = Some(i);
            }
        }
        i = i + 1;
    }
    assert(path@.take(n as int) =~= path@);
    match dot {
        Some(k) => {
            if k > name_start {
                let e = path.substring_char(k + 1, n).to_string();
                assert(e@ =~= path@.subrange(name_start as int, n as int).skip(
                    k + 1 - name_start,
                ));
                Some(e)
            } else {
                None
            }
        },
        None => None,
    }
}

/// The content type of the file at `path`, from its extension.
pub fn content_type(path: &str) -> (r: Option<String>)
    ensures
        match r {
            Some(m) => content_type_for(path@) == Some(m@),
            None => content_type_for(path@) is None,
        },
{
    match extension(path) {
        Some(e) => mime_for_extension(e.as_str()),
        None => None,
    }
}

} // verus!
