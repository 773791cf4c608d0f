//! Exact route identities `harness/provider/model[/revision]`.

use vstd::prelude::*;
use vstd::string::*;

use crate::text::{is_safe_id, is_safe_identifier};

use crate::util::Duplicate;

verus! {

/// Splits text at every `/`; the result always holds at least one segment.
pub open spec fn split_on_slash(s: Seq<char>) -> Seq<Seq<char>>
    decreases s.len(),
{
    if s.len() == 0 {
        seq![Seq::empty()]
    } else {
        let rest = split_on_slash(s.drop_last());
        if s.last() == '/' {
            rest.push(Seq::empty())
        } else {
            rest.update(rest.len() - 1, rest.last().push(s.last()))
        }
    }
}

pub proof fn lemma_split_nonempty(s: Seq<char>)
    ensures
        split_on_slash(s).len() >= 1,
    decreases s.len(),
{
    if s.len() > 0 {
        lemma_split_nonempty(s.drop_last());
    }
}

/// Text of a route: three or four safe segments separated by `/`.
pub open spec fn is_route_text(s: Seq<char>) -> bool {
    let parts = split_on_slash(s);
    &&& (parts.len() == 3 || parts.len() == 4)
    &&& forall|i: int| 0 <= i < parts.len() ==> #[trigger] is_safe_id(parts[i])
}

/// Splits text at every `/`.
pub fn split_slash(s: &str) -> (parts: Vec<String>)
    ensures
        parts@.map_values(|p: String| p@) == split_on_slash(s@),
{
        let n = s.unicode_len();
        let mut parts: Vec<String> = Vec::new();
        let mut start: usize = 0;
        let mut i: usize = 0;
        assert(s@.subrange(0, 0) =~= Seq::<char>::empty());
        assert(parts@.map_values(|p: String| p@).push(s@.subrange(0, 0)) =~= seq![
            Seq::<char>::empty(),
        ]);
        while i < n
            invariant
                n == s@.len(),
                start <= i <= n,
                parts@.map_values(|p: String| p@).push(s@.subrange(start as int, i as int))
                    == split_on_slash(s@.subrange(0, i as int)),
            decreases n - i,
        {
            let c = s.get_char(i);
            let ghost before = s@.subrange(0, i as int);
            assert(s@.subrange(0, i + 1).drop_last() =~= before);
            if c == '/' {
                let seg = s.substring_char(start, i);
                let owned = String::from_str(seg);
                parts.push(owned);
                assert(s@.subrange((i + 1) as int, (i + 1) as int) =~= Seq::<char>::empty());
                assert(parts@.map_values(|p: String| p@).push(Seq::empty()) =~= split_on_slash(
                    before,
                ).push(Seq::empty()));
            } else {
                assert(s@.subrange(start as int, i + 1) =~= s@.subrange(
                    start as int,
                    i as int,
                ).push(c));
                assert(parts@.map_values(|p: String| p@).push(s@.subrange(start as int, i + 1))
                    =~= split_on_slash(before).update(
                    split_on_slash(before).len() - 1,
                    split_on_slash(before).last().push(c),
                ));
            }
            i = i + 1;
            if c == '/' {
                start = i;
            }
        }
        assert(s@.subrange(0, n as int) =~= s@);
        let last = s.substring_char(start, n);
        parts.push(String::from_str(last));
        assert(parts@.map_values(|p: String| p@) =~= split_on_slash(s@));
        parts
}

/// Exact identity of a route; its text is always well formed.
#[derive(Debug, PartialEq, Eq, PartialOrd, Ord, Hash)]
pub struct RouteRef {
    text: String,
}

impl View for RouteRef {
    type V = Seq<char>;

    closed spec fn view(&self) -> Seq<char> {
        self.text@
    }
}

impl RouteRef {
    #[verifier::type_invariant]
    spec fn well_formed(&self) -> bool {
        is_route_text(self.text@)
    }

    /// Parses the exact text of a route.
    pub fn parse(s: &str) -> (r: Option<RouteRef>)
        ensures
            r is Some <==> is_route_text(s@),
            r matches Some(route) ==> route@ == s@,
    {
        let parts = split_slash(s);
        let ghost views = parts@.map_values(|p: String| p@);
        if parts.len() != 3 && parts.len() != 4 {
            return None;
        }
        let mut k: usize = 0;
        while k < parts.len()
            invariant
                views == parts@.map_values(|p: String| p@),
                views == split_on_slash(s@),
                k <= parts.len(),
                forall|j: int| 0 <= j < k ==> #[trigger] is_safe_id(views[j]),
            decreases parts.len() - k,
        {
            if !is_safe_identifier(parts[k].as_str()) {
                assert(!is_safe_id(views[k as int]));
                return None;
            }
            k = k + 1;
        }
        Some(RouteRef { text: String::from_str(s) })
    }

    /// The route as text.
    pub fn as_str(&self) -> (s: &str)
        ensures
            s@ == self@,
    {
        self.text.as_str()
    }

    /// Exact identity comparison.
    pub fn same_as(&self, other: &RouteRef) -> (b: bool)
        ensures
            b == (self@ == other@),
    {
        self.text == other.text
    }

    /// A copy with the same identity.
    pub fn duplicate(&self) -> (r: RouteRef)
        ensures
            r == *self,
    {
        proof {
            use_type_invariant(self);
        }
        RouteRef { text: self.text.clone() }
    }

    /// The provider segment, the second one.
    pub fn provider(&self) -> (p: String)
        ensures
            p@ == split_on_slash(self@)[1],
    {
        proof {
            use_type_invariant(self);
        }
        let s = self.text.as_str();
        let n = s.unicode_len();
        let mut i: usize = 0;
        let mut slashes: usize = 0;
        let mut start: usize = 0;
        // Walk up to the second `/`, remembering where the provider segment starts.
        while i < n
            invariant
                n == s@.len(),
                s@ == self@,
                is_route_text(self@),
                start <= i <= n,
                slashes <= 1,
                split_on_slash(s@.subrange(0, i as int)).len() == slashes + 1,
                split_on_slash(s@.subrange(0, i as int)).last() == s@.subrange(
                    start as int,
                    i as int,
                ),
                slashes == 1 ==> split_on_slash(s@.subrange(0, i as int))[1] == s@.subrange(
                    start as int,
                    i as int,
                ),
            decreases n - i,
        {
            let c = s.get_char(i);
            let ghost before = s@.subrange(0, i as int);
            assert(s@.subrange(0, i + 1).drop_last() =~= before);
            if c == '/' {
                if slashes == 1 {
                    proof {
                        lemma_split_prefix(s@, i as int);
                    }
                    let seg = s.substring_char(start, i);
                    return String::from_str(seg);
                }
                slashes = slashes + 1;
                i = i + 1;
                start = i;
                assert(s@.subrange(start as int, i as int) =~= Seq::<char>::empty());
            } else {
                assert(s@.subrange(start as int, i + 1) =~= s@.subrange(
                    start as int,
                    i as int,
                ).push(c));
                i = i + 1;
            }
        }
        assert(s@.subrange(0, n as int) =~= s@);
        // A well-formed route has at least three segments, so the loop returned.
        assert(false);
        String::new()
    }
}

/// Segments of a prefix are kept by every longer text, except that the last one may grow.
pub proof fn lemma_split_prefix(s: Seq<char>, i: int)
    requires
        0 <= i <= s.len(),
    ensures
        split_on_slash(s.subrange(0, i)).len() <= split_on_slash(s).len(),
        forall|j: int|
            0 <= j < split_on_slash(s.subrange(0, i)).len() - 1 ==> #[trigger] split_on_slash(
                s.subrange(0, i),
            )[j] == split_on_slash(s)[j],
        i < s.len() && s[i] == '/' ==> forall|j: int|
            0 <= j < split_on_slash(s.subrange(0, i)).len() ==> #[trigger] split_on_slash(
                s.subrange(0, i),
            )[j] == split_on_slash(s)[j],
    decreases s.len() - i,
{
    if i < s.len() {
        lemma_split_prefix(s, i + 1);
        let a = s.subrange(0, i);
        let b = s.subrange(0, i + 1);
        assert(b.drop_last() =~= a);
        assert(b.last() == s[i]);
        lemma_split_nonempty(a);
        let sa = split_on_slash(a);
        let sb = split_on_slash(b);
        if s[i] == '/' {
            assert(sb == sa.push(Seq::empty()));
            assert forall|j: int| 0 <= j < sa.len() implies #[trigger] sa[j] == split_on_slash(s)[j] by {
                assert(sb[j] == sa[j]);
            }
        } else {
            assert(sb == sa.update(sa.len() - 1, sa.last().push(s[i])));
            assert forall|j: int| 0 <= j < sa.len() - 1 implies #[trigger] sa[j] == split_on_slash(s)[j] by {
                assert(sb[j] == sa[j]);
            }
        }
    } else {
        assert(s.subrange(0, i) =~= s);
    }
}

impl Duplicate for RouteRef {
    fn duplicate(&self) -> (r: Self) {
        RouteRef::duplicate(self)
    }
}

impl Clone for RouteRef {
    fn clone(&self) -> (r: Self)
        ensures
            r == *self,
    {
        self.duplicate()
    }
}

} // verus!
