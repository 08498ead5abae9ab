//! Dockerfile formatting: the dprint Dockerfile plugin runs first, and
//! `RUN` instructions with their continuation lines are then rewritten
//! through the shell formatter for better alignment.

use vstd::prelude::*;

use crate::formats::FormatError;
use crate::formats::ensure_newline;
use crate::formats::ensure_newline_spec;
use crate::formats::opt_text;
use crate::formats::bash;
use crate::formats::bash::bash_format_spec;
use crate::formats::text::contains_pat;
use crate::formats::text::has_prefix;
use crate::formats::text::has_suffix;
use crate::formats::text::join_with;
use crate::formats::text::lines_spec;
use crate::formats::text::trim_end_spec;
use crate::formats::text::trim_start_spec;
use crate::formats::text::append_chars;
use crate::formats::text::contains_pat_chars;
use crate::formats::text::copy_chars;
use crate::formats::text::ends_with_chars;
use crate::formats::text::eq_chars;
use crate::formats::text::join_chars;
use crate::formats::text::lines_chars;
use crate::formats::text::starts_with_chars;
use crate::formats::text::str_to_chars;
use crate::formats::text::subvec;
use crate::formats::text::trim_end_chars;
use crate::formats::text::trim_start_chars;
use crate::formats::text::views;

verus! {

/// What the dprint Dockerfile plugin renders for a path hint and
/// source text; `None` means the text is already formatted.
pub uninterp spec fn docker_rendered(path: Seq<char>, text: Seq<char>) -> Option<Seq<char>>;

/// Does the call succeed for a path hint and source text? Like the
/// rendering itself, success depends on the inputs alone.
pub uninterp spec fn docker_accepts(path: Seq<char>, text: Seq<char>) -> bool;

/// The message the call reports when it fails; like the rendering, a
/// function of the inputs alone.
pub uninterp spec fn docker_failure(path: Seq<char>, text: Seq<char>) -> Seq<char>;

/// Relies on `dprint_plugin_dockerfile::format_text` with the default
/// configuration: it returns the formatted file, or `None` when
/// nothing changes, a function of the path hint and the text alone.
#[verifier::external_body]
fn docker_format_text(path: &str, text: &str) -> (r: Result<Option<String>, String>)
    ensures
        r is Ok <==> docker_accepts(path@, text@),
        r matches Err(m) ==> m@ == docker_failure(path@, text@),
        r matches Ok(o) ==> opt_text(o) == docker_rendered(path@, text@),
{
    let conf = dprint_plugin_dockerfile::configuration::ConfigurationBuilder::new().build();
    dprint_plugin_dockerfile::format_text(std::path::Path::new(path), text, &conf).map_err(|e| {
        e.to_string()
    })
}

/// The instruction text with every leading `RUN ` marker removed.
pub open spec fn strip_run(t: Seq<char>) -> Seq<char>
    decreases t.len(),
{
    if has_prefix(t, "RUN "@) && "RUN "@.len() > 0 {
        strip_run(t.skip("RUN "@.len() as int))
    } else {
        t
    }
}

/// Is the line collected into the `RUN` block above it: ending with a
/// backslash, or indented by a space or tab?
pub open spec fn collect_cond(l: Seq<char>) -> bool {
    has_suffix(trim_end_spec(l), "\\"@) || has_prefix(l, " "@) || has_prefix(l, "\t"@)
}

/// Scans the continuation lines of a `RUN` block from position `k`:
/// where the block ends, and the collected lines appended to `acc`.
pub open spec fn collect_scan(lines: Seq<Seq<char>>, k: int, acc: Seq<Seq<char>>) -> (
    int,
    Seq<Seq<char>>,
)
    decreases lines.len() - k,
    when 0 <= k
{
    if k >= lines.len() || !collect_cond(lines[k]) {
        (k, acc)
    } else {
        collect_scan(lines, k + 1, acc.push(trim_start_spec(trim_end_spec(lines[k]))))
    }
}

/// The scan never moves backwards and stops within the line list.
pub proof fn lemma_collect_scan_range(lines: Seq<Seq<char>>, k: int, acc: Seq<Seq<char>>)
    requires
        0 <= k <= lines.len(),
    ensures
        k <= collect_scan(lines, k, acc).0 <= lines.len(),
    decreases lines.len() - k,
{
    if k >= lines.len() || !collect_cond(lines[k]) {
    } else {
        lemma_collect_scan_range(lines, k + 1, acc.push(trim_start_spec(trim_end_spec(lines[k]))));
    }
}

/// The tail lines of a rewritten `RUN` block, each indented two spaces.
pub open spec fn prefixed_tail(blines: Seq<Seq<char>>, k: int) -> Seq<Seq<char>>
    decreases blines.len() - k,
    when 0 <= k
{
    if k >= blines.len() {
        Seq::empty()
    } else {
        seq!["  "@ + blines[k]] + prefixed_tail(blines, k + 1)
    }
}

/// The output lines of the `RUN` rewrite from position `i` on: each
/// `RUN` head line and its continuations are joined, run through the
/// shell formatter, and re-emitted under the `RUN ` marker; lines the
/// shell formatter leaves unchanged keep the head line as it was.
pub open spec fn run_embed(lines: Seq<Seq<char>>, i: int) -> Seq<Seq<char>>
    decreases lines.len() - i,
    when 0 <= i <= lines.len()
{
    if i >= lines.len() {
        Seq::empty()
    } else {
        let line = lines[i];
        let trimmed = trim_start_spec(line);
        if has_prefix(trimmed, "RUN "@) {
            proof {
                lemma_collect_scan_range(lines, i + 1, seq![strip_run(trimmed)]);
            }
            let j = collect_scan(lines, i + 1, seq![strip_run(trimmed)]).0;
            let coll = collect_scan(lines, i + 1, seq![strip_run(trimmed)]).1;
            let shell_src = join_with(coll, "\n"@);
            let chunk = if shell_src.len() > 0 && bash_format_spec(shell_src) != shell_src {
                let blines = lines_spec(trim_end_spec(bash_format_spec(shell_src)));
                if blines.len() > 0 {
                    seq!["RUN "@ + blines[0]] + prefixed_tail(blines, 1)
                } else {
                    seq![line]
                }
            } else {
                seq![line]
            };
            chunk + run_embed(lines, j)
        } else {
            seq![line] + run_embed(lines, i + 1)
        }
    }
}

/// The `RUN` rewrite of the plugin's output: applied only when the
/// text mentions `RUN ` at all, re-joining the lines with newlines.
pub open spec fn run_normalize_spec(content: Seq<char>) -> Seq<char> {
    if contains_pat(content, "RUN "@) {
        join_with(run_embed(lines_spec(content), 0), "\n"@)
    } else {
        content
    }
}

/// Strips every leading `RUN ` marker from the instruction text.
fn strip_run_chars(t: &Vec<char>) -> (r: Vec<char>)
    ensures
        r@ == strip_run(t@),
{
    let p_run = str_to_chars("RUN ");
    proof {
        reveal_strlit("RUN ");
    }
    let mut cur = copy_chars(t);
    while starts_with_chars(&cur, &p_run)
        invariant
            p_run@ == "RUN "@,
            strip_run(t@) == strip_run(cur@),
        decreases cur@.len(),
    {
        let n = cur.len();
        proof {
            reveal_strlit("RUN ");
            assert(cur@.subrange(p_run@.len() as int, n as int) =~= cur@.skip("RUN "@.len() as int));
        }
        cur = subvec(&cur, p_run.len(), n);
    }
    cur
}

/// Collects the continuation lines of a `RUN` block beginning at
/// `start`, exactly as `collect_scan` describes: the index where the
/// block ends and the block's lines, the stripped head line first.
fn collect_block(lines: &Vec<Vec<char>>, start: usize, first: &Vec<char>) -> (r: (
    usize,
    Vec<Vec<char>>,
))
    requires
        start <= lines@.len(),
    ensures
        r.0 as int == collect_scan(views(lines@), start as int, seq![first@]).0,
        views(r.1@) == collect_scan(views(lines@), start as int, seq![first@]).1,
        start <= r.0 <= lines@.len(),
{
    let ghost gl = views(lines@);
    let p_bslash = str_to_chars("\\");
    let p_space = str_to_chars(" ");
    let p_tab = str_to_chars("\t");
    let ghost gfirst = first@;
    let mut collected: Vec<Vec<char>> = Vec::new();
    collected.push(copy_chars(first));
    proof {
        assert(views(collected@) =~= seq![gfirst]);
    }
    let mut j = start;
    while j < lines.len()
        invariant
            start <= j <= lines@.len(),
            views(lines@) == gl,
            gfirst == first@,
            p_bslash@ == "\\"@ && p_space@ == " "@ && p_tab@ == "\t"@,
            collect_scan(gl, start as int, seq![gfirst]) == collect_scan(
                gl,
                j as int,
                views(collected@),
            ),
        decreases lines@.len() - j,
    {
        let ghost gcoll = views(collected@);
        proof {
            assert(gl[j as int] == lines@[j as int]@);
        }
        let nt = trim_end_chars(&lines[j]);
        let take = ends_with_chars(&nt, &p_bslash) || starts_with_chars(&lines[j], &p_space)
            || starts_with_chars(&lines[j], &p_tab);
        if !take {
            proof {
                assert(!collect_cond(gl[j as int]));
                assert(collect_scan(gl, j as int, views(collected@)) == (
                    j as int,
                    views(collected@),
                ));
            }
            return (j, collected);
        }
        collected.push(trim_start_chars(&nt));
        proof {
            assert(views(collected@) =~= gcoll.push(trim_start_spec(trim_end_spec(gl[j as int]))));
        }
        j += 1;
    }
    proof {
        assert(collect_scan(gl, j as int, views(collected@)) == (j as int, views(collected@)));
    }
    (j, collected)
}

/// Rewrites the `RUN` blocks of the rendered file through the shell
/// formatter, exactly as `run_normalize_spec` describes.
#[verifier::rlimit(90)]
fn run_normalize(content: &Vec<char>) -> (r: Vec<char>)
    ensures
        r@ == run_normalize_spec(content@),
{
    let p_run = str_to_chars("RUN ");
    if !contains_pat_chars(content, &p_run) {
        return copy_chars(content);
    }
    let lines = lines_chars(content);
    let ghost gl = lines_spec(content@);
    let p_bslash = str_to_chars("\\");
    let p_space = str_to_chars(" ");
    let p_tab = str_to_chars("\t");
    let nl = str_to_chars("\n");
    let mut outl: Vec<Vec<char>> = Vec::new();
    let mut i: usize = 0;
    while i < lines.len()
        invariant
            i <= lines@.len(),
            views(lines@) == gl,
            p_run@ == "RUN "@ && p_bslash@ == "\\"@ && p_space@ == " "@ && p_tab@ == "\t"@ && nl@
                == "\n"@,
            run_embed(gl, 0) == views(outl@) + run_embed(gl, i as int),
        decreases lines@.len() - i,
    {
        let ghost gout = views(outl@);
        proof {
            assert(gl[i as int] == lines@[i as int]@);
        }
        let trimmed = trim_start_chars(&lines[i]);
        if starts_with_chars(&trimmed, &p_run) {
            let stripped = strip_run_chars(&trimmed);
            let (j, collected) = collect_block(&lines, i + 1, &stripped);
            proof {
                assert(seq![strip_run(trimmed@)] =~= seq![strip_run(
                    trim_start_spec(gl[i as int]),
                )]);
            }
            let shell_src_v = join_chars(&collected, &nl);
            let shell_src = crate::formats::text::chars_to_string(&shell_src_v);
            let ghost gsrc = shell_src@;
            let mut replaced = false;
            match bash::format("inline.sh", shell_src.as_str()) {
                Ok(Some(formatted)) => {
                    let fchars = crate::formats::text::str_to_chars(formatted.as_str());
                    let ftrim = trim_end_chars(&fchars);
                    let blines = lines_chars(&ftrim);
                    let ghost gb = lines_spec(trim_end_spec(bash_format_spec(gsrc)));
                    proof {
                        assert(views(blines@) == gb);
                    }
                    if blines.len() > 0 {
                        let mut first = str_to_chars("RUN ");
                        append_chars(&mut first, &blines[0]);
                        proof {
                            assert(gb[0] == blines@[0]@);
                        }
                        outl.push(first);
                        proof {
                            assert(views(outl@) =~= gout.push("RUN "@ + gb[0]));
                        }
                        let mut k: usize = 1;
                        while k < blines.len()
                            invariant
                                1 <= k <= blines@.len(),
                                views(blines@) == gb,
                                views(outl@) == gout + seq!["RUN "@ + gb[0]] + prefixed_tail(
                                    gb,
                                    1,
                                ).take(k - 1),
                            decreases blines@.len() - k,
                        {
                            let ghost gout2 = views(outl@);
                            proof {
                                assert(gb[k as int] == blines@[k as int]@);
                                lemma_prefixed_tail_index(gb, 1, k as int);
                            }
                            let mut ex = str_to_chars("  ");
                            append_chars(&mut ex, &blines[k]);
                            outl.push(ex);
                            proof {
                                assert(views(outl@) =~= gout2.push("  "@ + gb[k as int]));
                                assert(prefixed_tail(gb, 1).take(k as int) =~= prefixed_tail(
                                    gb,
                                    1,
                                ).take(k - 1).push(prefixed_tail(gb, 1)[k - 1]));
                                assert(views(outl@) =~= gout + seq!["RUN "@ + gb[0]]
                                    + prefixed_tail(gb, 1).take(k as int));
                            }
                            k += 1;
                        }
                        proof {
                            lemma_prefixed_tail_len(gb, 1);
                            assert(prefixed_tail(gb, 1).take(blines@.len() - 1) =~= prefixed_tail(
                                gb,
                                1,
                            ));
                            assert(views(outl@) =~= gout + (seq!["RUN "@ + gb[0]] + prefixed_tail(
                                gb,
                                1,
                            )));
                        }
                        replaced = true;
                    }
                },
                Ok(None) => {},
                Err(_) => {
                    proof {
                        assert(false);
                    }
                },
            }
            if !replaced {
                outl.push(copy_chars(&lines[i]));
                proof {
                    assert(views(outl@) =~= gout.push(gl[i as int]));
                    assert(gout.push(gl[i as int]) =~= gout + seq![gl[i as int]]);
                }
            }
            proof {
                assert(views(outl@) + run_embed(gl, j as int) =~= gout + run_embed(gl, i as int));
            }
            i = j;
        } else {
            outl.push(copy_chars(&lines[i]));
            proof {
                assert(views(outl@) =~= gout.push(gl[i as int]));
                assert(gout.push(gl[i as int]) + run_embed(gl, i + 1) =~= gout + (seq![gl[
                    i as int]] + run_embed(gl, i + 1)));
            }
            i += 1;
        }
    }
    proof {
        assert(views(outl@) + Seq::<Seq<char>>::empty() =~= views(outl@));
    }
    join_chars(&outl, &nl)
}

/// Index lemma for `prefixed_tail`: element `m - k` of the tail from
/// `k` is line `m` with the two-space prefix.
proof fn lemma_prefixed_tail_index(blines: Seq<Seq<char>>, k: int, m: int)
    requires
        0 <= k <= m < blines.len(),
    ensures
        prefixed_tail(blines, k).len() == blines.len() - k,
        prefixed_tail(blines, k)[m - k] == "  "@ + blines[m],
    decreases m - k,
{
    lemma_prefixed_tail_len(blines, k);
    if k < m {
        lemma_prefixed_tail_index(blines, k + 1, m);
    }
}

/// Length lemma for `prefixed_tail`.
proof fn lemma_prefixed_tail_len(blines: Seq<Seq<char>>, k: int)
    requires
        0 <= k,
    ensures
        prefixed_tail(blines, k).len() == if k <= blines.len() {
            blines.len() - k
        } else {
            0
        },
    decreases blines.len() - k,
{
    if k < blines.len() {
        lemma_prefixed_tail_len(blines, k + 1);
    }
}

/// Formats Dockerfile text: the plugin's rendering (or the input when
/// the plugin reports no change) with its `RUN` blocks rewritten; the
/// result is `Ok(None)` exactly when that equals the input.
pub open spec fn format_post(path: Seq<char>, text: Seq<char>, r: Result<
    Option<String>,
    FormatError,
>) -> bool {
    &&& (r is Ok <==> docker_accepts(path, text))
    &&& r matches Err(e) ==> e.text() == docker_failure(path, text)
    &&& r matches Ok(o) ==> ({
        let content = match docker_rendered(path, text) {
            Some(c) => c,
            None => text,
        };
        let w = run_normalize_spec(content);
        &&& w == text ==> o is None
        &&& w != text ==> (o matches Some(s) && s@ == ensure_newline_spec(w))
    })
}

pub fn format(path: &str, text: &str) -> (r: Result<Option<String>, FormatError>)
    ensures
        format_post(path@, text@, r),
{
    let content: Vec<char> = match docker_format_text(path, text) {
        Err(m) => {
            return Err(FormatError::Message(m));
        },
        Ok(Some(c)) => str_to_chars(c.as_str()),
        Ok(None) => str_to_chars(text),
    };
    let normalized = run_normalize(&content);
    let b = str_to_chars(text);
    if eq_chars(&normalized, &b) {
        Ok(None)
    } else {
        let s = crate::formats::text::chars_to_string(&normalized);
        Ok(Some(ensure_newline(s)))
    }
}

} // verus!
