//! Rewrites a build file so that the image it describes carries the
//! in-container service binaries.
//!
//! The rewrite drops every `CMD` / `ENTRYPOINT` line (they would override the
//! service's startup command), finds the last `FROM` line (the final build
//! stage), injects one `COPY` line per required binary right after it, and,
//! when that final stage is alpine-based, one package-install line for the
//! compatibility libraries the copied binaries need on musl.
use vstd::prelude::*;

use crate::errors::MangleError;
use crate::text::{
    contains_ci, join_lines, lemma_contains_join_lines, lemma_trim_start_no_ws_head,
    lemma_views_of_push, spec_contains, spec_join_lines, spec_lower, spec_lower_char,
    spec_split_lines, spec_starts_with_ci, spec_trim_start, split_lines, starts_with_ci,
    trim_start, views_of,
};

verus! {

/// A build file's content after mangling.
#[derive(Debug)]
pub struct MangledDockerfile {
    pub content: String,
}

/// The release version string baked into the injected image reference.
pub open spec fn spec_service_version() -> Seq<char> {
    "0.1.0"@
}

/// The release version string baked into the injected image reference.
pub fn service_version() -> (r: String)
    ensures
        r@ == spec_service_version(),
{
    "0.1.0".to_owned()
}

/// A line whose content, after leading white space and up to ASCII case,
/// begins with `cmd` or `entrypoint`. Such lines are removed by mangling.
pub open spec fn spec_is_stripped_line(l: Seq<char>) -> bool {
    spec_starts_with_ci(spec_trim_start(l), "cmd"@) || spec_starts_with_ci(
        spec_trim_start(l),
        "entrypoint"@,
    )
}

/// A line whose content, after leading white space and up to ASCII case,
/// begins with `from`: the start of a build stage.
pub open spec fn spec_is_from_line(l: Seq<char>) -> bool {
    spec_starts_with_ci(spec_trim_start(l), "from"@)
}

/// The lines of `content` that survive the `CMD` / `ENTRYPOINT` strip.
pub open spec fn spec_kept_lines(content: Seq<char>) -> Seq<Seq<char>> {
    spec_split_lines(content).filter(|l: Seq<char>| !spec_is_stripped_line(l))
}

/// The index of the last `FROM` line, if any.
pub open spec fn spec_last_from_index(lines: Seq<Seq<char>>) -> Option<int>
    decreases lines.len(),
{
    if lines.len() == 0 {
        None
    } else if spec_is_from_line(lines.last()) {
        Some(lines.len() - 1)
    } else {
        spec_last_from_index(lines.drop_last())
    }
}

proof fn lemma_last_from_index_none(lines: Seq<Seq<char>>)
    requires
        forall|j: int| 0 <= j < lines.len() ==> !spec_is_from_line(#[trigger] lines[j]),
    ensures
        spec_last_from_index(lines) is None,
    decreases lines.len(),
{
    if lines.len() > 0 {
        lemma_last_from_index_none(lines.drop_last());
    }
}

proof fn lemma_last_from_index_is(lines: Seq<Seq<char>>, p: int)
    requires
        0 <= p < lines.len(),
        spec_is_from_line(lines[p]),
        forall|j: int| p < j < lines.len() ==> !spec_is_from_line(#[trigger] lines[j]),
    ensures
        spec_last_from_index(lines) == Some(p),
    decreases lines.len(),
{
    if p == lines.len() - 1 {
    } else {
        lemma_last_from_index_is(lines.drop_last(), p);
    }
}

/// Whatever index `spec_last_from_index` returns lies in range, names a
/// `FROM` line, and no later line is one.
pub proof fn lemma_last_from_index_bounds(lines: Seq<Seq<char>>)
    ensures
        spec_last_from_index(lines) matches Some(p) ==> 0 <= p < lines.len()
            && spec_is_from_line(lines[p]),
    decreases lines.len(),
{
    if lines.len() > 0 && !spec_is_from_line(lines.last()) {
        lemma_last_from_index_bounds(lines.drop_last());
        if spec_last_from_index(lines) is Some {
            let p = spec_last_from_index(lines).unwrap();
            assert(lines.drop_last()[p] == lines[p]);
        }
    }
}

/// The three `COPY` lines injected after the final build stage: the
/// in-container service binary, the fast recursive grep tool and the fast
/// file finder.
pub open spec fn spec_copy_lines(version: Seq<char>) -> Seq<Seq<char>> {
    seq![
        "COPY --from=bosunai/swiftide-docker-service:"@ + version
            + " /usr/bin/swiftide-docker-service /usr/bin/swiftide-docker-service"@,
        "COPY --from=bosunai/swiftide-docker-service:"@ + version + " /usr/bin/rg /usr/bin/rg"@,
        "COPY --from=bosunai/swiftide-docker-service:"@ + version + " /usr/bin/fd /usr/bin/fd"@,
    ]
}

/// The package-install line injected when the final stage is alpine-based.
pub open spec fn spec_apk_line() -> Seq<char> {
    "RUN apk add --no-cache gcompat libgcc pcre2 ripgrep fd"@
}

/// The lines of the mangled build file: the kept lines with the `COPY` block
/// (and the alpine package line, when the final stage names alpine) inserted
/// right after the last `FROM` line; `None` when there is no `FROM` line.
pub open spec fn spec_mangled_lines(content: Seq<char>, version: Seq<char>) -> Option<
    Seq<Seq<char>>,
> {
    let kept = spec_kept_lines(content);
    match spec_last_from_index(kept) {
        None => None,
        Some(p) => {
            let alpine = spec_contains(spec_lower(kept[p]), spec_lower("alpine"@));
            Some(
                kept.take(p + 1) + spec_copy_lines(version) + (if alpine {
                    seq![spec_apk_line()]
                } else {
                    Seq::empty()
                }) + kept.skip(p + 1),
            )
        },
    }
}

fn copy_line(version: &str, tail: &str) -> (r: String)
    ensures
        r@ == "COPY --from=bosunai/swiftide-docker-service:"@ + version@ + tail@,
{
    let mut line = "COPY --from=bosunai/swiftide-docker-service:".to_owned();
    line.append(version);
    line.append(tail);
    line
}

/// Rewrites a build file's content. Returns the rewritten content whose lines
/// are exactly `spec_mangled_lines` of the input, or
/// `MangleError::InvalidDockerfile` exactly when the input has no `FROM` line
/// left after the `CMD` / `ENTRYPOINT` strip.
pub fn mangle(content: &str) -> (r: Result<MangledDockerfile, MangleError>)
    ensures
        match r {
            Ok(m) => spec_mangled_lines(content@, spec_service_version()) matches Some(lines)
                && m.content@ == spec_join_lines(lines),
            Err(e) => e is InvalidDockerfile && spec_mangled_lines(
                content@,
                spec_service_version(),
            ) is None,
        },
{
    let all_lines = split_lines(content);
    let ghost pred = |l: Seq<char>| !spec_is_stripped_line(l);

    let mut kept: Vec<String> = Vec::new();
    let mut i: usize = 0;
    proof {
        reveal(Seq::filter);
        assert(views_of(all_lines@).take(0) =~= Seq::<Seq<char>>::empty());
    }
    while i < all_lines.len()
        invariant
            0 <= i <= all_lines@.len(),
            pred == (|l: Seq<char>| !spec_is_stripped_line(l)),
            views_of(kept@) == views_of(all_lines@).take(i as int).filter(pred),
        decreases all_lines@.len() - i,
    {
        let line = &all_lines[i];
        let t = trim_start(line.as_str());
        let stripped = starts_with_ci(t.as_str(), "cmd") || starts_with_ci(t.as_str(), "entrypoint");
        proof {
            reveal(Seq::filter);
            let prefix = views_of(all_lines@).take(i as int);
            let next = views_of(all_lines@).take(i + 1);
            assert(next.drop_last() =~= prefix);
            assert(next.last() == all_lines@[i as int]@);
        }
        if !stripped {
            kept.push(line.clone());
            proof {
                assert(views_of(kept@) =~= views_of(all_lines@).take(i as int).filter(pred).push(
                    all_lines@[i as int]@,
                ));
            }
        }
        i += 1;
    }
    proof {
        assert(views_of(all_lines@).take(all_lines@.len() as int) =~= views_of(all_lines@));
        assert(views_of(kept@) == spec_kept_lines(content@));
    }

    // Find the last build stage.
    let mut from_index: usize = kept.len();
    let mut j: usize = kept.len();
    while j > 0
        invariant_except_break
            0 <= j <= kept@.len(),
            from_index == kept@.len(),
            forall|k: int| j <= k < kept@.len() ==> !spec_is_from_line(#[trigger] views_of(kept@)[k]),
        ensures
            from_index <= kept@.len(),
            from_index == kept@.len() ==> forall|k: int|
                0 <= k < kept@.len() ==> !spec_is_from_line(#[trigger] views_of(kept@)[k]),
            from_index < kept@.len() ==> spec_is_from_line(views_of(kept@)[from_index as int])
                && forall|k: int|
                from_index < k < kept@.len() ==> !spec_is_from_line(#[trigger] views_of(kept@)[k]),
        decreases j,
    {
        let t = trim_start(kept[j - 1].as_str());
        if starts_with_ci(t.as_str(), "from") {
            from_index = j - 1;
            break;
        }
        j -= 1;
    }

    if from_index == kept.len() {
        proof {
            lemma_last_from_index_none(views_of(kept@));
        }
        return Err(MangleError::InvalidDockerfile);
    }
    proof {
        lemma_last_from_index_is(views_of(kept@), from_index as int);
    }

    let p = from_index;
    let alpine = contains_ci(kept[p].as_str(), "alpine");
    let version = service_version();

    let mut out: Vec<String> = Vec::new();
    let mut k: usize = 0;
    proof {
        assert(views_of(out@) =~~= views_of(kept@).take(0));
    }
    while k <= p
        invariant
            0 <= k <= p + 1 <= kept@.len(),
            kept@.len() <= usize::MAX,
            views_of(out@) == views_of(kept@).take(k as int),
        decreases p + 1 - k,
    {
        let ghost old_out = out@;
        let item = kept[k].clone();
        let ghost item_view = item@;
        out.push(item);
        proof {
            lemma_views_of_push(old_out, out@[out@.len() - 1]);
            assert(out@ == old_out.push(out@[out@.len() - 1]));
            assert(views_of(out@) =~= views_of(kept@).take(k + 1));
        }
        k += 1;
    }

    out.push(
        copy_line(
            version.as_str(),
            " /usr/bin/swiftide-docker-service /usr/bin/swiftide-docker-service",
        ),
    );
    out.push(copy_line(version.as_str(), " /usr/bin/rg /usr/bin/rg"));
    out.push(copy_line(version.as_str(), " /usr/bin/fd /usr/bin/fd"));
    if alpine {
        out.push("RUN apk add --no-cache gcompat libgcc pcre2 ripgrep fd".to_owned());
    }

    let ghost mid = views_of(out@);
    let mut k2: usize = p + 1;
    while k2 < kept.len()
        invariant
            p + 1 <= k2 <= kept@.len(),
            views_of(out@) == mid + views_of(kept@).subrange(p + 1, k2 as int),
        decreases kept@.len() - k2,
    {
        let ghost old_out = out@;
        let item = kept[k2].clone();
        out.push(item);
        proof {
            lemma_views_of_push(old_out, out@[out@.len() - 1]);
            assert(out@ == old_out.push(out@[out@.len() - 1]));
            assert(views_of(out@) =~= mid + views_of(kept@).subrange(p + 1, k2 + 1));
        }
        k2 += 1;
    }

    proof {
        let kept_v = views_of(kept@);
        let target = spec_mangled_lines(content@, spec_service_version()).unwrap();
        assert(mid + kept_v.subrange(p + 1, kept_v.len() as int) =~~= mid + kept_v.skip(p + 1));
        if alpine {
            assert(mid =~~= kept_v.take(p + 1) + spec_copy_lines(spec_service_version()) + seq![
                spec_apk_line(),
            ]);
        } else {
            assert(mid =~~= kept_v.take(p + 1) + spec_copy_lines(spec_service_version())
                + Seq::<Seq<char>>::empty());
        }
        assert(views_of(out@) =~~= target);
    }

    let content_out = join_lines(&out);
    Ok(MangledDockerfile { content: content_out })
}

/// Law: mangling injects the required copies. Whenever mangling succeeds,
/// the joined output contains the published service-image reference and the
/// three binary paths that must be copied into the image.
pub proof fn lemma_mangle_injects_required_copies(content: Seq<char>, version: Seq<char>)
    requires
        spec_mangled_lines(content, version) is Some,
    ensures
        spec_contains(
            spec_join_lines(spec_mangled_lines(content, version).unwrap()),
            "COPY --from=bosunai/swiftide-docker-service:"@,
        ),
        spec_contains(
            spec_join_lines(spec_mangled_lines(content, version).unwrap()),
            "/usr/bin/swiftide-docker-service"@,
        ),
        spec_contains(
            spec_join_lines(spec_mangled_lines(content, version).unwrap()),
            "/usr/bin/rg"@,
        ),
        spec_contains(
            spec_join_lines(spec_mangled_lines(content, version).unwrap()),
            "/usr/bin/fd"@,
        ),
{
    let kept = spec_kept_lines(content);
    let p = spec_last_from_index(kept).unwrap();
    lemma_last_from_index_bounds(kept);
    let lines = spec_mangled_lines(content, version).unwrap();
    let copy0 = spec_copy_lines(version)[0];
    let copy1 = spec_copy_lines(version)[1];
    let copy2 = spec_copy_lines(version)[2];
    // The three copy lines stand at indexes p + 1, p + 2 and p + 3.
    assert(lines[p + 1] == copy0);
    assert(lines[p + 2] == copy1);
    assert(lines[p + 3] == copy2);

    let header = "COPY --from=bosunai/swiftide-docker-service:"@;
    assert(copy0.subrange(0, 0 + header.len() as int) =~= header);
    assert(spec_contains(copy0, header));
    lemma_contains_join_lines(lines, p + 1, header);

    reveal_strlit(" /usr/bin/swiftide-docker-service /usr/bin/swiftide-docker-service");
    reveal_strlit("/usr/bin/swiftide-docker-service");
    let tail0 = " /usr/bin/swiftide-docker-service /usr/bin/swiftide-docker-service"@;
    let svc = "/usr/bin/swiftide-docker-service"@;
    let off0 = header.len() + version.len() + 1;
    assert(copy0.subrange(off0 as int, off0 + svc.len() as int) =~= svc);
    assert(spec_contains(copy0, svc));
    lemma_contains_join_lines(lines, p + 1, svc);

    reveal_strlit(" /usr/bin/rg /usr/bin/rg");
    reveal_strlit("/usr/bin/rg");
    let rg = "/usr/bin/rg"@;
    let off1 = header.len() + version.len() + 1;
    assert(copy1.subrange(off1 as int, off1 + rg.len() as int) =~= rg);
    assert(spec_contains(copy1, rg));
    lemma_contains_join_lines(lines, p + 2, rg);

    reveal_strlit(" /usr/bin/fd /usr/bin/fd");
    reveal_strlit("/usr/bin/fd");
    let fd = "/usr/bin/fd"@;
    let off2 = header.len() + version.len() + 1;
    assert(copy2.subrange(off2 as int, off2 + fd.len() as int) =~= fd);
    assert(spec_contains(copy2, fd));
    lemma_contains_join_lines(lines, p + 3, fd);
}

/// Law: mangling strips conflicting directives. No line of a mangled build
/// file begins, after leading white space and up to ASCII case, with `cmd`
/// or `entrypoint`.
pub proof fn lemma_mangle_strips_conflicting_directives(content: Seq<char>, version: Seq<char>)
    requires
        spec_mangled_lines(content, version) is Some,
    ensures
        forall|i: int|
            0 <= i < spec_mangled_lines(content, version).unwrap().len()
                ==> !spec_is_stripped_line(#[trigger] spec_mangled_lines(
                content,
                version,
            ).unwrap()[i]),
{
    let kept = spec_kept_lines(content);
    let p = spec_last_from_index(kept).unwrap();
    lemma_last_from_index_bounds(kept);
    let lines = spec_mangled_lines(content, version).unwrap();
    let all = spec_split_lines(content);
    let pred = |l: Seq<char>| !spec_is_stripped_line(l);

    assert forall|k: int| 0 <= k < kept.len() implies !spec_is_stripped_line(
        #[trigger] kept[k],
    ) by {
        all.lemma_filter_pred(pred, k);
    }

    reveal_strlit("COPY --from=bosunai/swiftide-docker-service:");
    reveal_strlit("RUN apk add --no-cache gcompat libgcc pcre2 ripgrep fd");
    reveal_strlit("cmd");
    reveal_strlit("entrypoint");

    let header = "COPY --from=bosunai/swiftide-docker-service:"@;
    let a = kept.take(p + 1);
    let b = spec_copy_lines(version);
    let alpine = spec_contains(spec_lower(kept[p]), spec_lower("alpine"@));
    let c: Seq<Seq<char>> = if alpine {
        seq![spec_apk_line()]
    } else {
        Seq::empty()
    };
    let d = kept.skip(p + 1);
    assert(lines == a + b + c + d);
    assert forall|i: int| 0 <= i < lines.len() implies !spec_is_stripped_line(
        #[trigger] lines[i],
    ) by {
        assert(lines[i] == (a + b + c + d)[i]);
        if i <= p {
            assert((a + b + c + d)[i] == a[i]);
            assert(a[i] == kept[i]);
        } else if i >= a.len() + b.len() + c.len() {
            assert((a + b + c + d)[i] == d[i - (a.len() + b.len() + c.len())]);
            assert(d[i - (a.len() + b.len() + c.len())] == kept[i - (a.len() + b.len()
                + c.len()) + (p + 1)]);
        } else {
            // One of the injected lines: they begin with `CO` or `RU`, so
            // neither `cmd` nor `entrypoint` is a case-folded prefix.
            let l = lines[i];
            assert(l == spec_copy_lines(version)[0] || l == spec_copy_lines(version)[1] || l
                == spec_copy_lines(version)[2] || l == spec_apk_line());
            if l == spec_apk_line() {
                assert(l[0] == 'R');
                lemma_trim_start_no_ws_head(l);
                if spec_is_stripped_line(l) {
                    assert(spec_lower_char(l[0]) == spec_lower_char("cmd"@[0])
                        || spec_lower_char(l[0]) == spec_lower_char("entrypoint"@[0]));
                }
            } else {
                assert(l[0] == header[0] && l[1] == header[1]);
                assert(l[0] == 'C' && l[1] == 'O');
                lemma_trim_start_no_ws_head(l);
                assert(l.len() >= "cmd"@.len());
                if spec_is_stripped_line(l) {
                    assert(spec_lower_char(l[0]) == spec_lower_char("entrypoint"@[0])
                        || spec_lower_char(l[1]) == spec_lower_char("cmd"@[1]));
                }
            }
        }
    }
}

} // verus!
