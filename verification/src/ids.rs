//! Identifier normalizer: maps each operator's raw composite identifiers
//! (colon-delimited refs, prefixed stop codes) to canonical short ids usable
//! across operators.

use vstd::prelude::*;

use crate::model::NVTModels;
use crate::strutil::{find_char_from, first_index_of, last_index_of, rfind_char, str_eq};

verus! {

/// First position at or after `from` where the marker `"BP:"` starts in `s`.
pub open spec fn first_bp_marker(s: Seq<char>, from: int) -> Option<int>
    decreases s.len() - from,
{
    if from < 0 || from + 3 > s.len() {
        None
    } else if s[from] == 'B' && s[from + 1] == 'P' && s[from + 2] == ':' {
        Some(from)
    } else {
        first_bp_marker(s, from + 1)
    }
}

/// The canonical stop id hidden in a raw stop reference: the token after the
/// `"BP:"` marker up to the next colon when the marker is present, else the
/// second-to-last colon-delimited segment, else the raw value itself.
pub open spec fn extract_stop_id_spec(s: Seq<char>) -> Seq<char> {
    if first_bp_marker(s, 0) is Some {
        let rest = s.skip(first_bp_marker(s, 0).unwrap() + 3);
        let seg = match first_bp_marker(rest, 0) {
            Some(k) => rest.take(k),
            None => rest,
        };
        match first_index_of(seg, ':', 0) {
            Some(j) => seg.take(j),
            None => seg,
        }
    } else if first_index_of(s, ':', 0) is Some {
        let last = last_index_of(s, ':', s.len() as int).unwrap();
        match last_index_of(s, ':', last) {
            Some(prev) => s.subrange(prev + 1, last),
            None => s.take(last),
        }
    } else {
        s
    }
}

/// The canonical line id of a line reference: its third colon-delimited
/// segment, when the reference has one.
pub open spec fn extract_line_id_spec(s: Seq<char>) -> Option<Seq<char>> {
    match first_index_of(s, ':', 0) {
        None => None,
        Some(i1) => match first_index_of(s, ':', i1 + 1) {
            None => None,
            Some(i2) => Some(
                match first_index_of(s, ':', i2 + 1) {
                    Some(i3) => s.subrange(i2 + 1, i3),
                    None => s.skip(i2 + 1),
                },
            ),
        },
    }
}

/// The segment of `s` after its last colon; `s` itself without one.
pub open spec fn last_colon_segment(s: Seq<char>) -> Seq<char> {
    match last_index_of(s, ':', s.len() as int) {
        Some(i) => s.skip(i + 1),
        None => s,
    }
}

/// The canonical trailing code of a national-rail stop id: the part after the
/// last dash; the id itself without one.
pub open spec fn extract_sncf_stop_id_spec(s: Seq<char>) -> Seq<char> {
    match last_index_of(s, '-', s.len() as int) {
        Some(i) => s.skip(i + 1),
        None => s,
    }
}

/// The display code of a route id: the last colon-delimited segment for the
/// operators whose route ids embed one, the route id itself otherwise.
pub open spec fn extract_line_code_spec(route_id: Seq<char>, operator: Seq<char>) -> Seq<char> {
    if operator == "TBM"@ || operator == "TransGironde"@ {
        last_colon_segment(route_id)
    } else {
        route_id
    }
}

proof fn lemma_first_bp_marker_step(s: Seq<char>, from: int)
    requires
        0 <= from,
        from + 3 <= s.len(),
        !(s[from] == 'B' && s[from + 1] == 'P' && s[from + 2] == ':'),
    ensures
        first_bp_marker(s, from) == first_bp_marker(s, from + 1),
{
}

/// First position at or after `from` where the marker `"BP:"` starts.
fn find_bp_from(s: &str, from: usize) -> (r: Option<usize>)
    requires
        from <= s@.len(),
    ensures
        r is Some <==> first_bp_marker(s@, from as int) is Some,
        r is Some ==> first_bp_marker(s@, from as int) == Some(r.unwrap() as int),
        r is Some ==> from <= r.unwrap() && r.unwrap() + 3 <= s@.len(),
{
    let n = s.unicode_len();
    if n < 3 || from > n - 3 {
        return None;
    }
    let mut i = from;
    while i <= n - 3
        invariant
            from <= i,
            i <= n,
            3 <= n,
            n == s@.len(),
            first_bp_marker(s@, from as int) == first_bp_marker(s@, i as int),
        decreases n - i,
    {
        if s.get_char(i) == 'B' && s.get_char(i + 1) == 'P' && s.get_char(i + 2) == ':' {
            return Some(i);
        }
        proof {
            lemma_first_bp_marker_step(s@, i as int);
        }
        i = i + 1;
    }
    None
}

impl NVTModels {
    /// Canonical stop id of a raw urban stop reference; see
    /// [`extract_stop_id_spec`].
    pub fn extract_stop_id(full_id: &str) -> (r: Option<String>)
        ensures
            r is Some,
            r.unwrap()@ == extract_stop_id_spec(full_id@),
    {
        let n = full_id.unicode_len();
        match find_bp_from(full_id, 0) {
            Some(p) => {
                let rest = full_id.substring_char(p + 3, n);
                proof {
                    assert(rest@ =~= full_id@.skip(p + 3));
                }
                let seg = match find_bp_from(rest, 0) {
                    Some(k) => rest.substring_char(0, k),
                    None => rest,
                };
                proof {
                    assert(seg@ =~= match first_bp_marker(rest@, 0) {
                        Some(k) => rest@.take(k),
                        None => rest@,
                    });
                }
                let tok = match find_char_from(seg, 0, ':') {
                    Some(j) => seg.substring_char(0, j),
                    None => seg,
                };
                proof {
                    assert(tok@ =~= extract_stop_id_spec(full_id@));
                }
                Some(tok.to_owned())
            },
            None => {
                proof {
                    crate::strutil::lemma_first_last_same_existence(full_id@, ':');
                }
                match rfind_char(full_id, ':') {
                    Some(last) => {
                        let head = full_id.substring_char(0, last);
                        proof {
                            assert(head@ =~= full_id@.take(last as int));
                        }
                        proof {
                            crate::strutil::lemma_last_index_of_prefix(full_id@, ':', last as int);
                        }
                        let r = match rfind_char(head, ':') {
                            Some(prev) => {
                                let piece = full_id.substring_char(prev + 1, last);
                                proof {
                                    assert(piece@ =~= full_id@.subrange(prev + 1, last as int));
                                }
                                piece
                            },
                            None => head,
                        };
                        proof {
                            assert(r@ =~= extract_stop_id_spec(full_id@));
                        }
                        Some(r.to_owned())
                    },
                    None => Some(full_id.to_owned()),
                }
            },
        }
    }

    /// Canonical line id of a line reference: its third colon-delimited
    /// segment; see [`extract_line_id_spec`].
    pub fn extract_line_id(line_ref: &str) -> (r: Option<&str>)
        ensures
            match extract_line_id_spec(line_ref@) {
                Some(seg) => r is Some && r.unwrap()@ == seg,
                None => r is None,
            },
    {
        let n = line_ref.unicode_len();
        let i1 = match find_char_from(line_ref, 0, ':') {
            Some(i) => i,
            None => {
                return None;
            },
        };
        let i2 = match find_char_from(line_ref, i1 + 1, ':') {
            Some(i) => i,
            None => {
                return None;
            },
        };
        let r = match find_char_from(line_ref, i2 + 1, ':') {
            Some(i3) => line_ref.substring_char(i2 + 1, i3),
            None => line_ref.substring_char(i2 + 1, n),
        };
        proof {
            assert(r@ =~= extract_line_id_spec(line_ref@).unwrap());
        }
        Some(r)
    }

    /// Canonical trailing code of a national-rail stop id; see
    /// [`extract_sncf_stop_id_spec`].
    pub fn extract_sncf_stop_id(full_id: &str) -> (r: Option<String>)
        ensures
            r is Some,
            r.unwrap()@ == extract_sncf_stop_id_spec(full_id@),
    {
        let n = full_id.unicode_len();
        match rfind_char(full_id, '-') {
            Some(i) => {
                let piece = full_id.substring_char(i + 1, n);
                proof {
                    assert(piece@ =~= full_id@.skip(i + 1));
                }
                Some(piece.to_owned())
            },
            None => Some(full_id.to_owned()),
        }
    }

    /// Display code of a route id for the given operator; see
    /// [`extract_line_code_spec`].
    pub fn extract_line_code_from_route(route_id: &str, operator: &str) -> (r: String)
        ensures
            r@ == extract_line_code_spec(route_id@, operator@),
    {
        if str_eq(operator, "TBM") || str_eq(operator, "TransGironde") {
            let n = route_id.unicode_len();
            match rfind_char(route_id, ':') {
                Some(i) => {
                    let piece = route_id.substring_char(i + 1, n);
                    proof {
                        assert(piece@ =~= route_id@.skip(i + 1));
                    }
                    piece.to_owned()
                },
                None => route_id.to_owned(),
            }
        } else {
            route_id.to_owned()
        }
    }
}

} // verus!
