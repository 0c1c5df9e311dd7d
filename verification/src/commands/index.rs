//! Arguments of `index <path> [ext1 ext2 ...] <strategy>`.
use vstd::prelude::*;

use crate::text::str_is;
use crate::vault::index::utils::{is_image_ext, is_image_extension, string_views};

verus! {

/// The strategy that a strategy name selects.
#[derive(PartialEq, Eq, Structural, Clone, Copy, Debug)]
pub enum StrategyChoice {
    Recursive,
    Home,
    SameDirectory,
}

/// `rec` walks the target recursively, `home` the home directory, and every
/// other name (`same` among them) the target directory's own entries.
pub open spec fn spec_strategy_choice(name: Seq<char>) -> StrategyChoice {
    if name == "rec"@ {
        StrategyChoice::Recursive
    } else if name == "home"@ {
        StrategyChoice::Home
    } else {
        StrategyChoice::SameDirectory
    }
}

/// The strategy that a strategy name selects.
pub fn strategy_choice(name: &str) -> (r: StrategyChoice)
    ensures
        r == spec_strategy_choice(name@),
{
    if str_is(name, "rec") {
        StrategyChoice::Recursive
    } else if str_is(name, "home") {
        StrategyChoice::Home
    } else {
        StrategyChoice::SameDirectory
    }
}

/// The extensions of a list that name image formats, in order.
pub open spec fn image_filter(exts: Seq<Seq<char>>) -> Seq<Seq<char>>
    decreases exts.len(),
{
    if exts.len() == 0 {
        Seq::empty()
    } else if is_image_ext(exts.last()) {
        image_filter(exts.drop_last()).push(exts.last())
    } else {
        image_filter(exts.drop_last())
    }
}

/// The image filter keeps exactly the image extensions of a list, in order:
/// filtering a concatenation filters each part, a list of image extensions is
/// kept whole, everything kept is an image extension of the list, and every
/// image extension of the list is kept.
pub proof fn lemma_image_filter_laws(s: Seq<Seq<char>>, t: Seq<Seq<char>>)
    ensures
        image_filter(s + t) == image_filter(s) + image_filter(t),
        (forall|i: int| 0 <= i < s.len() ==> is_image_ext(#[trigger] s[i])) ==> image_filter(s) == s,
        forall|j: int|
            0 <= j < image_filter(s).len() ==> is_image_ext(#[trigger] image_filter(s)[j])
                && s.contains(image_filter(s)[j]),
        forall|i: int| 0 <= i < s.len() && is_image_ext(#[trigger] s[i]) ==> image_filter(s).contains(s[i]),
        image_filter(s).len() <= s.len(),
    decreases t.len(),
{
    lemma_image_filter_members(s);
    if t.len() == 0 {
        assert(s + t =~= s);
        assert(image_filter(s) + image_filter(t) =~= image_filter(s));
    } else {
        lemma_image_filter_laws(s, t.drop_last());
        assert((s + t).drop_last() =~= s + t.drop_last());
        assert((s + t).last() == t.last());
        if is_image_ext(t.last()) {
            assert(image_filter(s) + image_filter(t) =~= (image_filter(s) + image_filter(t.drop_last())).push(t.last()));
        } else {
            assert(image_filter(s) + image_filter(t) =~= image_filter(s) + image_filter(t.drop_last()));
        }
    }
}

proof fn lemma_image_filter_members(s: Seq<Seq<char>>)
    ensures
        (forall|i: int| 0 <= i < s.len() ==> is_image_ext(#[trigger] s[i])) ==> image_filter(s) == s,
        forall|j: int|
            0 <= j < image_filter(s).len() ==> is_image_ext(#[trigger] image_filter(s)[j])
                && s.contains(image_filter(s)[j]),
        forall|i: int| 0 <= i < s.len() && is_image_ext(#[trigger] s[i]) ==> image_filter(s).contains(s[i]),
        image_filter(s).len() <= s.len(),
    decreases s.len(),
{
    if s.len() > 0 {
        let r = s.drop_last();
        lemma_image_filter_members(r);
        let f = image_filter(s);
        let fr = image_filter(r);
        if forall|i: int| 0 <= i < s.len() ==> is_image_ext(#[trigger] s[i]) {
            assert forall|i: int| 0 <= i < r.len() implies is_image_ext(#[trigger] r[i]) by {
                assert(r[i] == s[i]);
            }
            assert(is_image_ext(s[s.len() - 1]));
            assert(s =~= r.push(s.last()));
        }
        assert forall|j: int| 0 <= j < f.len() implies is_image_ext(#[trigger] f[j]) && s.contains(f[j]) by {
            if j < fr.len() {
                assert(f[j] == fr[j]);
                let k = choose|k: int| 0 <= k < r.len() && r[k] == fr[j];
                assert(s[k] == r[k]);
            } else {
                assert(f[j] == s.last());
                assert(s[s.len() - 1] == s.last());
            }
        }
        assert forall|i: int| 0 <= i < s.len() && is_image_ext(#[trigger] s[i]) implies f.contains(s[i]) by {
            if i < r.len() {
                assert(r[i] == s[i]);
                assert(fr.contains(r[i]));
                let k = choose|k: int| 0 <= k < fr.len() && fr[k] == r[i];
                assert(f[k] == fr[k]);
            } else {
                assert(f[f.len() - 1] == s[i]);
            }
        }
    }
}

/// The arguments of the `index` command.
pub struct IndexArgs {
    /// The target path.
    pub path: String,
    /// The strategy's name, as given.
    pub strategy_name: String,
    /// The strategy that the name selects.
    pub strategy: StrategyChoice,
    /// The requested extensions that name image formats, in order.
    pub extensions: Vec<String>,
}

/// Reads `index <path> [ext1 ext2 ...] <strategy>`: `args[0]` is the command
/// name, `args[1]` the path, the last argument the strategy, and everything in
/// between the extensions, of which only the image ones are kept. `None` when
/// there are fewer than three arguments.
pub fn parse_index_args(args: &[String]) -> (r: Option<IndexArgs>)
    ensures
        r is None <==> args@.len() < 3,
        r matches Some(a) ==> {
            &&& a.path@ == args@[1]@
            &&& a.strategy_name@ == args@.last()@
            &&& a.strategy == spec_strategy_choice(args@.last()@)
            &&& string_views(a.extensions@) == image_filter(
                string_views(args@.subrange(2, args@.len() - 1)),
            )
            &&& forall|i: int|
                2 <= i < args@.len() - 1 && is_image_ext(#[trigger] args@[i]@) ==> string_views(
                    a.extensions@,
                ).contains(args@[i]@)
            &&& forall|j: int|
                0 <= j < a.extensions@.len() ==> is_image_ext(#[trigger] a.extensions@[j]@)
        },
{
    if args.len() < 3 {
        return None;
    }
    let last = args.len() - 1;
    let ghost given = string_views(args@.subrange(2, last as int));
    let mut extensions: Vec<String> = Vec::new();
    let mut i: usize = 2;
    while i < last
        invariant
            2 <= i <= last,
            last == args@.len() - 1,
            given == string_views(args@.subrange(2, last as int)),
            string_views(extensions@) == image_filter(given.take(i - 2)),
        decreases last - i,
    {
        assert(given.take(i - 1).drop_last() =~= given.take(i - 2));
        assert(given.take(i - 1).last() == args@[i as int]@);
        if is_image_extension(args[i].as_str()) {
            let ghost before = extensions@;
            extensions.push(args[i].clone());
            assert(string_views(extensions@) =~= string_views(before).push(args@[i as int]@));
        }
        i += 1;
    }
    assert(given.take(last - 2) =~= given);
    proof {
        lemma_image_filter_members(given);
        assert forall|i: int|
            2 <= i < args@.len() - 1 && is_image_ext(#[trigger] args@[i]@) implies string_views(
                extensions@,
            ).contains(args@[i]@) by {
            assert(given[i - 2] == args@[i]@);
        }
        assert forall|j: int| 0 <= j < extensions@.len() implies is_image_ext(#[trigger] extensions@[j]@) by {
            assert(string_views(extensions@)[j] == extensions@[j]@);
        }
    }
    Some(IndexArgs {
        path: args[1].clone(),
        strategy_name: args[last].clone(),
        strategy: strategy_choice(args[last].as_str()),
        extensions,
    })
}

} // verus!
