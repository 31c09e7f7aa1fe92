use vstd::prelude::*;
use vstd::string::StrSliceExecFns;

verus! {

/// What a semantic-version parse yields, as a mathematical value: the three
/// numeric components and the raw pre-release and build-metadata parts.
pub struct SemverInfoView {
    pub major: u64,
    pub minor: u64,
    pub patch: u64,
    pub pre: Seq<char>,
    pub build: Seq<char>,
}

/// What a semantic-version parse yields.
#[derive(Debug, PartialEq, Eq)]
pub struct SemverInfo {
    pub major: u64,
    pub minor: u64,
    pub patch: u64,
    pub pre: String,
    pub build: String,
}

impl View for SemverInfo {
    type V = SemverInfoView;

    open spec fn view(&self) -> SemverInfoView {
        SemverInfoView {
            major: self.major,
            minor: self.minor,
            patch: self.patch,
            pre: self.pre@,
            build: self.build@,
        }
    }
}

/// The name of what `semver::Version::parse` returns on a given text:
/// the parsed components, or nothing where the text is no semantic version.
pub uninterp spec fn parsed_semver(s: Seq<char>) -> Option<SemverInfoView>;

/// The view of an optional parse result.
pub open spec fn opt_semver_view(r: Option<SemverInfo>) -> Option<SemverInfoView> {
    match r {
        Some(i) => Some(i@),
        None => None,
    }
}

/// Relies on `semver::Version::parse`: the result depends on the characters
/// of the text alone; a parsed version carries its numeric components and
/// its raw pre-release and build-metadata parts.
#[verifier::external_body]
fn parse_semver(s: &str) -> (r: Option<SemverInfo>)
    ensures
        opt_semver_view(r) == parsed_semver(s@),
{
    match semver::Version::parse(s) {
        Ok(v) => Some(
            SemverInfo {
                major: v.major,
                minor: v.minor,
                patch: v.patch,
                pre: String::from(v.pre.as_str()),
                build: String::from(v.build.as_str()),
            },
        ),
        Err(_) => None,
    }
}

/// A tag name with one optional leading `v` stripped.
pub open spec fn strip_v_spec(s: Seq<char>) -> Seq<char> {
    if s.len() > 0 && s[0] == 'v' {
        s.skip(1)
    } else {
        s
    }
}

/// Strips one optional leading `v` from a tag name.
fn strip_v(s: &str) -> (r: &str)
    ensures
        r@ == strip_v_spec(s@),
{
    let n = s.unicode_len();
    if n > 0 && s.get_char(0) == 'v' {
        let r = s.substring_char(1, n);
        proof {
            assert(r@ =~= s@.skip(1));
        }
        r
    } else {
        s
    }
}

/// The release key of a tag: its numeric version triple, present exactly
/// when the tag (with an optional leading `v` stripped) parses as a
/// semantic version carrying neither pre-release nor build metadata.
pub open spec fn clean_key(tag: Seq<char>) -> Option<(u64, u64, u64)> {
    match parsed_semver(strip_v_spec(tag)) {
        Some(i) => if i.pre.len() == 0 && i.build.len() == 0 {
            Some((i.major, i.minor, i.patch))
        } else {
            None
        },
        None => None,
    }
}

/// Strict ordering of release keys: numerically greater wins.
pub open spec fn key_gt(a: (u64, u64, u64), b: (u64, u64, u64)) -> bool {
    ||| a.0 > b.0
    ||| (a.0 == b.0 && a.1 > b.1)
    ||| (a.0 == b.0 && a.1 == b.1 && a.2 > b.2)
}

/// The latest release among a tag list: the tag with the numerically
/// greatest release key, walked left to right, a strictly greater key
/// replacing the champion.
pub open spec fn latest_tag_spec(tags: Seq<Seq<char>>) -> Option<(Seq<char>, (u64, u64, u64))>
    decreases tags.len(),
{
    if tags.len() == 0 {
        None
    } else {
        let rest = latest_tag_spec(tags.drop_last());
        match clean_key(tags.last()) {
            None => rest,
            Some(k) => match rest {
                None => Some((tags.last(), k)),
                Some(p) => if key_gt(k, p.1) {
                    Some((tags.last(), k))
                } else {
                    rest
                },
            },
        }
    }
}

/// Picks the latest release tag of a list: the numerically greatest among
/// the tags that parse as a plain semantic version, an optional leading `v`
/// allowed; tags with pre-release or build metadata never take part.
pub fn latest_semver_tag(tags: &Vec<String>) -> (r: Option<String>)
    ensures
        match r {
            Some(t) => latest_tag_spec(tags.deep_view()) matches Some(p) && t@ == p.0,
            None => latest_tag_spec(tags.deep_view()) is None,
        },
{
    let mut best_tag: Option<String> = None;
    let mut best_key: (u64, u64, u64) = (0, 0, 0);
    let mut i: usize = 0;
    while i < tags.len()
        invariant
            i <= tags@.len(),
            tags.deep_view().len() == tags@.len(),
            match best_tag {
                Some(t) => latest_tag_spec(tags.deep_view().subrange(0, i as int)) matches Some(p)
                    && t@ == p.0 && best_key == p.1,
                None => latest_tag_spec(tags.deep_view().subrange(0, i as int)) is None,
            },
        decreases tags@.len() - i,
    {
        let tag = &tags[i];
        proof {
            assert(tags.deep_view()[i as int] == tag@);
            assert(tags.deep_view().subrange(0, i as int + 1).drop_last() =~= tags.deep_view()
                .subrange(0, i as int));
            assert(tags.deep_view().subrange(0, i as int + 1).last() == tag@);
        }
        let stripped = strip_v(tag.as_str());
        match parse_semver(stripped) {
            Some(info) => {
                let pre_empty = info.pre.as_str().unicode_len() == 0;
                let build_empty = info.build.as_str().unicode_len() == 0;
                if pre_empty && build_empty {
                    let k = (info.major, info.minor, info.patch);
                    proof {
                        assert(clean_key(tag@) == Some((info.major, info.minor, info.patch)));
                    }
                    let replace = match &best_tag {
                        None => true,
                        Some(_) => k.0 > best_key.0 || (k.0 == best_key.0 && k.1 > best_key.1) || (
                        k.0 == best_key.0 && k.1 == best_key.1 && k.2 > best_key.2),
                    };
                    if replace {
                        best_tag = Some(tag.clone());
                        best_key = k;
                    }
                } else {
                    proof {
                        assert(clean_key(tag@) is None);
                    }
                }
            }
            None => {
                proof {
                    assert(clean_key(tag@) is None);
                }
            }
        }
        i = i + 1;
    }
    proof {
        assert(tags.deep_view().subrange(0, tags@.len() as int) =~= tags.deep_view());
    }
    best_tag
}

/// The selected tag, when there is one, stands in the list, parses as a
/// plain release, and no release key of the list exceeds its key; no tag is
/// selected exactly when no tag of the list parses as a plain release.
pub proof fn lemma_latest_tag_sound(tags: Seq<Seq<char>>)
    ensures
        match latest_tag_spec(tags) {
            Some(p) => tags.contains(p.0) && clean_key(p.0) == Some(p.1) && forall|j: int|
                0 <= j < tags.len() ==> (#[trigger] clean_key(tags[j]) matches Some(k)
                    ==> !key_gt(k, p.1)),
            None => forall|j: int| 0 <= j < tags.len() ==> #[trigger] clean_key(tags[j]) is None,
        },
    decreases tags.len(),
{
    if tags.len() > 0 {
        lemma_latest_tag_sound(tags.drop_last());
        assert(forall|j: int|
            0 <= j < tags.len() - 1 ==> #[trigger] tags[j] == tags.drop_last()[j]);
        match latest_tag_spec(tags) {
            Some(p) => {
                if tags.drop_last().contains(p.0) {
                    let w = choose|w: int|
                        0 <= w < tags.drop_last().len() && tags.drop_last()[w] == p.0;
                    assert(tags[w] == p.0);
                } else {
                    assert(tags[tags.len() - 1] == p.0);
                }
            }
            None => {}
        }
    }
}

/// Tag-latest selection ignores tags that carry pre-release or build
/// metadata, and tags that are no semantic version at all: dropping such a
/// tag from the candidate list leaves the selection unchanged.
pub proof fn lemma_latest_tag_ignores_unclean(tags: Seq<Seq<char>>, i: int)
    requires
        0 <= i < tags.len(),
        clean_key(tags[i]) is None,
    ensures
        latest_tag_spec(tags.remove(i)) == latest_tag_spec(tags),
    decreases tags.len(),
{
    if i == tags.len() - 1 {
        assert(tags.remove(i) =~= tags.drop_last());
    } else {
        assert(tags.remove(i).drop_last() =~= tags.drop_last().remove(i));
        assert(tags.drop_last()[i] == tags[i]);
        lemma_latest_tag_ignores_unclean(tags.drop_last(), i);
        assert(tags.remove(i).last() == tags.last());
    }
}

} // verus!
