use vstd::prelude::*;
use vstd::string::StringExecFns;

verus! {

/// One schedule entry handed out by the media source.
///
/// `cmd` is the decode command (input arguments); `None` means that the
/// schedule is exhausted. `filter` is the item's filter-chain arguments,
/// which are applied only when they hold more than one entry. An item that
/// is not `playable` is a placeholder and is skipped without decoding.
/// `source` names the item for log lines.
#[derive(Debug, Clone)]
pub struct MediaItem {
    pub cmd: Option<Vec<String>>,
    pub filter: Option<Vec<String>>,
    pub playable: bool,
    pub source: String,
}

/// The text of each string of a sequence.
pub open spec fn texts(v: Seq<String>) -> Seq<Seq<char>> {
    v.map_values(|s: String| s@)
}

/// The filter arguments that take part in a decode invocation: only a chain
/// of more than one entry is applied.
pub open spec fn applied_filter(filter: Option<Vec<String>>) -> Seq<Seq<char>> {
    match filter {
        Some(f) => if f@.len() > 1 {
            texts(f@)
        } else {
            Seq::empty()
        },
        None => Seq::empty(),
    }
}

/// The fixed diagnostic flags that open every decode invocation, with the
/// session's log level.
pub open spec fn diagnostic_flags(log_format: Seq<char>) -> Seq<Seq<char>> {
    seq!["-hide_banner"@, "-nostats"@, "-v"@, log_format]
}

/// The full argument list of the decoder for one item: diagnostic flags,
/// then the item's command, then its filter chain (if applied), then the
/// session's global decode settings.
pub open spec fn decoder_args_spec(
    log_format: Seq<char>,
    cmd: Seq<String>,
    filter: Option<Vec<String>>,
    settings: Seq<String>,
) -> Seq<Seq<char>> {
    diagnostic_flags(log_format) + texts(cmd) + applied_filter(filter) + texts(settings)
}

/// Appends a copy of every string of `src` to `out`, in order.
fn append_all(out: &mut Vec<String>, src: &Vec<String>)
    ensures
        texts(final(out)@) == texts(old(out)@) + texts(src@),
{
    let ghost start = texts(out@);
    let mut i: usize = 0;
    while i < src.len()
        invariant
            0 <= i <= src.len(),
            texts(out@) == start + texts(src@.subrange(0, i as int)),
        decreases src.len() - i,
    {
        let ghost before = out@;
        let s = src[i].clone();
        out.push(s);
        proof {
            assert(out@ == before.push(src@[i as int]));
            assert(texts(out@) =~= texts(before).push(src@[i as int]@));
            assert(src@.subrange(0, i + 1) =~= src@.subrange(0, i as int).push(src@[i as int]));
            assert(texts(src@.subrange(0, i + 1)) =~= texts(src@.subrange(0, i as int)).push(
                src@[i as int]@,
            ));
        }
        i = i + 1;
    }
    proof {
        assert(src@.subrange(0, i as int) == src@);
    }
}

/// Composes the decoder invocation for one item.
pub fn decoder_args(
    log_format: &str,
    cmd: &Vec<String>,
    filter: &Option<Vec<String>>,
    settings: &Vec<String>,
) -> (r: Vec<String>)
    ensures
        texts(r@) == decoder_args_spec(log_format@, cmd@, *filter, settings@),
{
    let mut out: Vec<String> = Vec::new();
    out.push(String::from_str("-hide_banner"));
    out.push(String::from_str("-nostats"));
    out.push(String::from_str("-v"));
    out.push(String::from_str(log_format));
    proof {
        reveal_strlit("-hide_banner");
        reveal_strlit("-nostats");
        reveal_strlit("-v");
        assert(texts(out@) =~= diagnostic_flags(log_format@));
    }
    append_all(&mut out, cmd);
    match filter {
        Some(f) => {
            if f.len() > 1 {
                append_all(&mut out, f);
            } else {
                proof {
                    assert(texts(out@) =~= texts(out@) + applied_filter(*filter));
                }
            }
        },
        None => {
            proof {
                assert(texts(out@) =~= texts(out@) + applied_filter(*filter));
            }
        },
    }
    append_all(&mut out, settings);
    out
}

} // verus!
