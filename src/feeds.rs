use crate::error::OpmlError;
use crate::model::{Opml, Outline};
use vstd::prelude::*;

verus! {

broadcast use vstd::std_specs::vec::group_vec_axioms, vstd::seq::group_seq_axioms;

/// The children of an outline, in document order; none where the field is
/// absent.
pub open spec fn children(o: Outline) -> Seq<Outline> {
    match o.outline {
        Some(v) => v@,
        None => Seq::empty(),
    }
}

/// Every outline of a forest, depth first: a node comes before its children,
/// and siblings come left to right.
pub open spec fn preorder(s: Seq<Outline>) -> Seq<Outline>
    decreases s,
{
    if s.len() == 0 {
        Seq::empty()
    } else {
        proof {
            assert(decreases_to!(s => s[0]));
            assert(decreases_to!(s => s.subrange(1, s.len() as int)));
            assert(s.drop_first() == s.subrange(1, s.len() as int));
        }
        let below = match s[0].outline {
            Some(v) => {
                proof {
                    assert(decreases_to!(s[0] => s[0].outline));
                    assert(decreases_to!(v => v@));
                }
                preorder(v@)
            },
            None => Seq::empty(),
        };
        seq![s[0]] + below + preorder(s.drop_first())
    }
}

/// An outline that stands for a feed: its type is `rss`.
pub open spec fn is_feed(o: Outline) -> bool {
    o.type_ matches Some(t) && t@ == "rss"@
}

/// The addresses of the feeds among `s`, in order; `None` where a feed among
/// them has no address.
pub open spec fn feed_urls(s: Seq<Outline>) -> Option<Seq<Seq<char>>>
    decreases s.len(),
{
    if s.len() == 0 {
        Some(Seq::empty())
    } else {
        match feed_urls(s.drop_last()) {
            None => None,
            Some(u) => {
                let o = s.last();
                if is_feed(o) {
                    match o.xml_url {
                        Some(x) => Some(u.push(x@)),
                        None => None,
                    }
                } else {
                    Some(u)
                }
            },
        }
    }
}

/// The outlines that a sequence of references points at.
pub open spec fn derefs(s: Seq<&Outline>) -> Seq<Outline> {
    s.map_values(|r: &Outline| *r)
}

/// The text of each string, in order.
pub open spec fn texts(s: Seq<String>) -> Seq<Seq<char>> {
    s.map_values(|x: String| x@)
}

/// The message that names the missing address of a feed.
pub open spec fn missing_url_message() -> Seq<char> {
    "missing xml_url"@
}

/// Unfolds `preorder` once, over `children`.
pub proof fn lemma_preorder_unfold(s: Seq<Outline>)
    requires
        s.len() > 0,
    ensures
        preorder(s) == seq![s[0]] + preorder(children(s[0])) + preorder(s.drop_first()),
{
    reveal_with_fuel(preorder, 2);
}

/// A lone outline comes first, then its subtree.
pub proof fn lemma_preorder_single(o: Outline)
    ensures
        preorder(seq![o]) == seq![o] + preorder(children(o)),
{
    lemma_preorder_unfold(seq![o]);
    assert(seq![o].drop_first() =~= Seq::<Outline>::empty());
    assert(preorder(Seq::<Outline>::empty()) == Seq::<Outline>::empty());
    assert(seq![o] + preorder(children(o)) + Seq::<Outline>::empty() =~= seq![o] + preorder(
        children(o),
    ));
}

/// The traversal of two forests side by side is the traversal of the first
/// followed by that of the second.
pub proof fn lemma_preorder_append(a: Seq<Outline>, b: Seq<Outline>)
    ensures
        preorder(a + b) == preorder(a) + preorder(b),
    decreases a.len(),
{
    if a.len() == 0 {
        assert(a + b =~= b);
        assert(preorder(a) == Seq::<Outline>::empty());
        assert(preorder(a) + preorder(b) =~= preorder(b));
    } else {
        let ab = a + b;
        lemma_preorder_unfold(a);
        lemma_preorder_unfold(ab);
        assert(ab[0] == a[0]);
        assert(ab.drop_first() =~= a.drop_first() + b);
        lemma_preorder_append(a.drop_first(), b);
        assert(preorder(ab) =~= preorder(a) + preorder(b));
    }
}

/// Once a prefix of `s` holds a feed without an address, so does `s`.
pub proof fn lemma_feed_urls_prefix_fails(s: Seq<Outline>, n: int)
    requires
        0 <= n <= s.len(),
        feed_urls(s.take(n)) is None,
    ensures
        feed_urls(s) is None,
    decreases s.len(),
{
    if n == s.len() {
        assert(s.take(n) =~= s);
    } else {
        assert(s.drop_last().take(n) =~= s.take(n));
        lemma_feed_urls_prefix_fails(s.drop_last(), n);
    }
}

/// The addresses found in two runs of outlines, side by side, are those of
/// the first run followed by those of the second; a failure in either run is
/// a failure of the whole.
pub proof fn lemma_feed_urls_append(a: Seq<Outline>, b: Seq<Outline>)
    ensures
        feed_urls(a + b) == match (feed_urls(a), feed_urls(b)) {
            (Some(u), Some(w)) => Some(u + w),
            _ => None::<Seq<Seq<char>>>,
        },
    decreases b.len(),
{
    if b.len() == 0 {
        assert(a + b =~= a);
        if let Some(u) = feed_urls(a) {
            assert(u + Seq::<Seq<char>>::empty() =~= u);
        }
    } else {
        let ab = a + b;
        assert(ab.drop_last() =~= a + b.drop_last());
        assert(ab.last() == b.last());
        lemma_feed_urls_append(a, b.drop_last());
        if let (Some(u), Some(w)) = (feed_urls(a), feed_urls(b.drop_last())) {
            if is_feed(b.last()) {
                if let Some(x) = b.last().xml_url {
                    assert((u + w).push(x@) =~= u + w.push(x@));
                }
            }
        }
    }
}

/// An outline that is not a feed adds no address wherever it stands, whatever
/// its `xml_url` holds.
pub proof fn lemma_non_feed_adds_nothing(a: Seq<Outline>, o: Outline, b: Seq<Outline>)
    requires
        !is_feed(o),
    ensures
        feed_urls(a + seq![o] + b) == feed_urls(a + b),
{
    lemma_feed_urls_append(a + seq![o], b);
    lemma_feed_urls_append(a, b);
    lemma_feed_urls_append(a, seq![o]);
    assert(seq![o].drop_last() =~= Seq::<Outline>::empty());
    assert(seq![o].last() == o);
    reveal_with_fuel(feed_urls, 2);
    assert(feed_urls(seq![o]) == Some(Seq::<Seq<char>>::empty()));
    if let Some(u) = feed_urls(a) {
        assert(u + Seq::<Seq<char>>::empty() =~= u);
    }
}

/// A feed without an address makes the whole run fail, wherever it stands.
pub proof fn lemma_feed_without_url_fails(a: Seq<Outline>, o: Outline, b: Seq<Outline>)
    requires
        is_feed(o),
        o.xml_url is None,
    ensures
        feed_urls(a + seq![o] + b) is None,
{
    lemma_feed_urls_append(a + seq![o], b);
    lemma_feed_urls_append(a, seq![o]);
    assert(seq![o].drop_last() =~= Seq::<Outline>::empty());
}

/// A feed with an address adds exactly that address, in its place.
pub proof fn lemma_feed_with_url_adds_it(a: Seq<Outline>, o: Outline, b: Seq<Outline>)
    requires
        is_feed(o),
        o.xml_url is Some,
    ensures
        feed_urls(a + seq![o] + b) == match (feed_urls(a), feed_urls(b)) {
            (Some(u), Some(w)) => Some(u + seq![o.xml_url->0@] + w),
            _ => None::<Seq<Seq<char>>>,
        },
{
    lemma_feed_urls_append(a + seq![o], b);
    lemma_feed_urls_append(a, seq![o]);
    assert(seq![o].drop_last() =~= Seq::<Outline>::empty());
    assert(Seq::<Seq<char>>::empty().push(o.xml_url->0@) =~= seq![o.xml_url->0@]);
    assert(seq![o].last() == o);
    reveal_with_fuel(feed_urls, 2);
    assert(feed_urls(seq![o]) == Some(seq![o.xml_url->0@]));
}

/// A document without outlines has no feeds, and nothing fails.
pub proof fn lemma_empty_body_has_no_feeds()
    ensures
        feed_urls(preorder(Seq::<Outline>::empty())) == Some(Seq::<Seq<char>>::empty()),
{
}

/// Appends to `acc`, as references, `input` and all its descendants, depth
/// first: a node before its children, siblings left to right.
pub fn flatten<'a>(input: &'a Outline, acc: &mut Vec<&'a Outline>)
    ensures
        derefs(final(acc)@) == derefs(old(acc)@) + preorder(seq![*input]),
    decreases input,
{
    let ghost start = derefs(acc@);
    acc.push(input);
    proof {
        lemma_preorder_single(*input);
        assert(derefs(acc@) =~= start + seq![*input]);
    }
    if let Some(kids) = &input.outline {
        let mut j: usize = 0;
        while j < kids.len()
            invariant
                j <= kids.len(),
                input.outline == Some(*kids),
                derefs(acc@) == start + seq![*input] + preorder(kids@.take(j as int)),
            decreases kids.len() - j,
        {
            proof {
                assert(decreases_to!(*input => input.outline));
                assert(decreases_to!(input.outline => input.outline->0));
                assert(decreases_to!(*kids => kids[j as int]));
                assert(decreases_to!(*input => kids[j as int]));
                lemma_preorder_append(kids@.take(j as int), seq![kids@[j as int]]);
                assert(kids@.take(j + 1) =~= kids@.take(j as int) + seq![kids@[j as int]]);
            }
            flatten(&kids[j], acc);
            j += 1;
        }
        proof {
            assert(kids@.take(j as int) =~= kids@);
            assert(derefs(acc@) =~= start + preorder(seq![*input]));
        }
    } else {
        proof {
            assert(preorder(children(*input)) == Seq::<Outline>::empty());
            assert(seq![*input] + Seq::<Outline>::empty() =~= seq![*input]);
        }
    }
}

impl Opml {
    /// The address of every outline of type `rss`, in the depth-first order
    /// of the outline tree. Fails at the first such outline that has no
    /// address.
    pub fn get_xml_urls(&self) -> (r: Result<Vec<String>, OpmlError>)
        ensures
            r is Ok <==> feed_urls(preorder(self.body.outline@)) is Some,
            r matches Ok(v) ==> feed_urls(preorder(self.body.outline@)) == Some(texts(v@)),
            r matches Err(e) ==> e matches OpmlError::BadRss(m) && m@ == missing_url_message(),
    {
        let mut acc: Vec<&Outline> = Vec::new();
        let mut i: usize = 0;
        while i < self.body.outline.len()
            invariant
                i <= self.body.outline.len(),
                derefs(acc@) == preorder(self.body.outline@.take(i as int)),
            decreases self.body.outline.len() - i,
        {
            proof {
                let s = self.body.outline@;
                lemma_preorder_append(s.take(i as int), seq![s[i as int]]);
                assert(s.take(i + 1) =~= s.take(i as int) + seq![s[i as int]]);
            }
            flatten(&self.body.outline[i], &mut acc);
            i += 1;
        }
        proof {
            assert(self.body.outline@.take(i as int) =~= self.body.outline@);
        }
        let ghost all = derefs(acc@);
        let rss = "rss".to_owned();
        let mut res: Vec<String> = Vec::new();
        let mut k: usize = 0;
        while k < acc.len()
            invariant
                k <= acc.len(),
                all == derefs(acc@),
                all == preorder(self.body.outline@),
                rss@ == "rss"@,
                feed_urls(all.take(k as int)) == Some(texts(res@)),
            decreases acc.len() - k,
        {
            let o: &Outline = acc[k];
            let ghost before = res@;
            proof {
                assert(all.take(k + 1).drop_last() =~= all.take(k as int));
                assert(all.take(k + 1).last() == *o);
            }
            if let Some(t) = &o.type_ {
                if *t == rss {
                    match &o.xml_url {
                        Some(x) => {
                            res.push(x.clone());
                            proof {
                                assert(texts(res@) =~= texts(before).push(x@));
                            }
                        },
                        None => {
                            proof {
                                lemma_feed_urls_prefix_fails(all, k + 1);
                            }
                            return Err(OpmlError::BadRss("missing xml_url".to_owned()));
                        },
                    }
                }
            }
            k += 1;
        }
        proof {
            assert(all.take(k as int) =~= all);
        }
        Ok(res)
    }
}

} // verus!
