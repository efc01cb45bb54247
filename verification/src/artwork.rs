//! Whether a fetched artwork body may be handed to the frontend for colour extraction.
use vstd::prelude::*;
use crate::text::{ascii_lower, chars_of, has_prefix, lower_ascii_all, trim, trim_bounds, to_ascii_lower};

verus! {

/// Whether a content type labels an image: after trimming and ASCII lowercasing it
/// begins with `image/`. A missing content type is let through; the webview's image
/// decoder is the final check.
pub open spec fn is_image_spec(content_type: Option<Seq<char>>) -> bool {
    match content_type {
        None => true,
        Some(v) => has_prefix(lower_ascii_all(trim(v)), "image/"@),
    }
}

pub fn is_image(content_type: Option<&str>) -> (r: bool)
    ensures
        r == is_image_spec(match content_type {
            Some(v) => Some(v@),
            None => None,
        }),
{
    match content_type {
        None => true,
        Some(value) => {
            let v = chars_of(value);
            let (a, b) = trim_bounds(&v, 0, v.len());
            assert(v@.subrange(0, v@.len() as int) =~= v@);
            let prefix = chars_of("image/");
            proof {
                reveal_strlit("image/");
            }
            if b - a < prefix.len() {
                return false;
            }
            let mut i: usize = 0;
            while i < prefix.len()
                invariant
                    a + prefix@.len() <= b <= v@.len(),
                    v@ == value@,
                    content_type == Some(value),
                    v@.subrange(a as int, b as int) == trim(value@),
                    prefix@ == "image/"@,
                    i <= prefix@.len(),
                    forall|j: int| 0 <= j < i ==> ascii_lower(v@[a + j]) == prefix@[j],
                decreases prefix@.len() - i,
            {
                if to_ascii_lower(v[a + i]) != prefix[i] {
                    proof {
                        let t = lower_ascii_all(v@.subrange(a as int, b as int));
                        assert(t[i as int] == ascii_lower(v@[a + i]));
                        assert(t.subrange(0, prefix@.len() as int)[i as int] == t[i as int]);
                    }
                    return false;
                }
                i = i + 1;
            }
            proof {
                let t = lower_ascii_all(v@.subrange(a as int, b as int));
                assert(t.subrange(0, prefix@.len() as int) =~= prefix@);
            }
            true
        },
    }
}

/// Why an artwork response cannot be handed on, if it cannot: it is not labelled as an
/// image, or it is empty.
pub fn check_artwork(content_type: Option<&str>, body_len: usize) -> (r: Result<(), String>)
    ensures
        !is_image_spec(match content_type {
            Some(v) => Some(v@),
            None => None,
        }) ==> (r matches Err(e) && e@ == "artwork response was not an image"@),
        is_image_spec(match content_type {
            Some(v) => Some(v@),
            None => None,
        }) && body_len == 0 ==> (r matches Err(e) && e@ == "artwork response was empty"@),
        is_image_spec(match content_type {
            Some(v) => Some(v@),
            None => None,
        }) && body_len > 0 ==> r is Ok,
{
    if !is_image(content_type) {
        return Err(String::from_str("artwork response was not an image"));
    }
    if body_len == 0 {
        return Err(String::from_str("artwork response was empty"));
    }
    Ok(())
}

} // verus!
