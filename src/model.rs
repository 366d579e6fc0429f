use std::collections::HashMap;
use vstd::prelude::*;

verus! {

broadcast use vstd::std_specs::vec::group_vec_axioms;

/// A whole document: its version, its metadata and its outline tree.
#[derive(Debug, PartialEq)]
pub struct Opml {
    pub version: String,
    pub head: Head,
    pub body: Body,
}

/// The metadata of a document. Every field is optional, and an absent field
/// differs from one that holds the empty string.
#[derive(Debug, PartialEq)]
pub struct Head {
    pub title: Option<String>,
    pub date_created: Option<String>,
    pub date_modified: Option<String>,
    pub owner_name: Option<String>,
    pub owner_email: Option<String>,
    pub owner_id: Option<String>,
    pub docs: Option<String>,
    pub expansion_state: Option<String>,
    pub vert_scroll_state: Option<String>,
    pub window_top: Option<String>,
    pub window_bottom: Option<String>,
}

/// The top-level outlines of a document, in document order.
#[derive(Debug, PartialEq)]
pub struct Body {
    pub outline: Vec<Outline>,
}

/// One node of the outline tree. `text` is always there; the other named
/// fields are optional, `outline` holds the children in document order, and
/// `extra` keeps every attribute that none of the named fields stands for.
#[derive(Debug, PartialEq)]
pub struct Outline {
    pub text: String,
    pub outline: Option<Vec<Outline>>,
    pub type_: Option<String>,
    pub xml_url: Option<String>,
    pub description: Option<String>,
    pub html_url: Option<String>,
    pub title: Option<String>,
    pub version: Option<String>,
    pub language: Option<String>,
    pub extra: HashMap<String, String>,
}

/// A head with no field set.
pub open spec fn head_is_empty(h: Head) -> bool {
    &&& h.title is None
    &&& h.date_created is None
    &&& h.date_modified is None
    &&& h.owner_name is None
    &&& h.owner_email is None
    &&& h.owner_id is None
    &&& h.docs is None
    &&& h.expansion_state is None
    &&& h.vert_scroll_state is None
    &&& h.window_top is None
    &&& h.window_bottom is None
}

/// An outline with empty text, no optional field set and no extra attribute.
pub open spec fn outline_is_blank(o: Outline) -> bool {
    &&& o.text@ == Seq::<char>::empty()
    &&& o.outline is None
    &&& o.type_ is None
    &&& o.xml_url is None
    &&& o.description is None
    &&& o.html_url is None
    &&& o.title is None
    &&& o.version is None
    &&& o.language is None
    &&& o.extra@ == Map::<String, String>::empty()
}

impl Default for Head {
    fn default() -> (h: Head)
        ensures
            head_is_empty(h),
    {
        Head {
            title: None,
            date_created: None,
            date_modified: None,
            owner_name: None,
            owner_email: None,
            owner_id: None,
            docs: None,
            expansion_state: None,
            vert_scroll_state: None,
            window_top: None,
            window_bottom: None,
        }
    }
}

impl Default for Body {
    fn default() -> (b: Body)
        ensures
            b.outline@.len() == 0,
    {
        Body { outline: Vec::new() }
    }
}

impl Default for Outline {
    fn default() -> (o: Outline)
        ensures
            outline_is_blank(o),
    {
        Outline {
            text: String::new(),
            outline: None,
            type_: None,
            xml_url: None,
            description: None,
            html_url: None,
            title: None,
            version: None,
            language: None,
            extra: HashMap::new(),
        }
    }
}

impl Default for Opml {
    fn default() -> (d: Opml)
        ensures
            d.version@ == "2.0"@,
            head_is_empty(d.head),
            d.body.outline@.len() == 0,
    {
        Opml { version: "2.0".to_owned(), head: Head::default(), body: Body::default() }
    }
}

/// Two outlines that hold the same values: equal named fields, extension
/// maps with the same entries, and children that are pairwise the same.
pub open spec fn same_outline(a: Outline, b: Outline) -> bool
    decreases a,
{
    &&& a.text == b.text
    &&& a.type_ == b.type_
    &&& a.xml_url == b.xml_url
    &&& a.description == b.description
    &&& a.html_url == b.html_url
    &&& a.title == b.title
    &&& a.version == b.version
    &&& a.language == b.language
    &&& a.extra@ == b.extra@
    &&& match (a.outline, b.outline) {
        (None, None) => true,
        (Some(x), Some(y)) => {
            proof {
                assert(decreases_to!(a => a.outline));
                assert(decreases_to!(a.outline => x));
                assert(decreases_to!(x => x@));
            }
            same_forest(x@, y@)
        },
        _ => false,
    }
}

/// Two runs of outlines of the same length that are pairwise the same.
pub open spec fn same_forest(x: Seq<Outline>, y: Seq<Outline>) -> bool
    decreases x,
{
    if x.len() == 0 {
        y.len() == 0
    } else {
        proof {
            assert(decreases_to!(x => x.last()));
            assert(decreases_to!(x => x.subrange(0, x.len() - 1)));
            assert(x.drop_last() == x.subrange(0, x.len() - 1));
        }
        y.len() == x.len() && same_forest(x.drop_last(), y.drop_last()) && same_outline(
            x.last(),
            y.last(),
        )
    }
}

fn copy_text(s: &Option<String>) -> (r: Option<String>)
    ensures
        r == *s,
{
    match s {
        Some(x) => Some(x.clone()),
        None => None,
    }
}

fn copy_outline(o: &Outline) -> (r: Outline)
    ensures
        same_outline(r, *o),
    decreases o,
{
    let outline = match &o.outline {
        None => None,
        Some(kids) => {
            proof {
                assert(decreases_to!(*o => o.outline));
                assert(decreases_to!(o.outline => o.outline->0));
            }
            Some(copy_forest(kids))
        },
    };
    Outline {
        text: o.text.clone(),
        outline,
        type_: copy_text(&o.type_),
        xml_url: copy_text(&o.xml_url),
        description: copy_text(&o.description),
        html_url: copy_text(&o.html_url),
        title: copy_text(&o.title),
        version: copy_text(&o.version),
        language: copy_text(&o.language),
        extra: o.extra.clone(),
    }
}

impl Clone for Outline {
    /// A deep copy of the outline and all its descendants.
    fn clone(&self) -> (r: Outline)
        ensures
            same_outline(r, *self),
    {
        copy_outline(self)
    }
}

fn copy_forest(v: &Vec<Outline>) -> (r: Vec<Outline>)
    ensures
        same_forest(r@, v@),
    decreases v,
{
    let mut copies: Vec<Outline> = Vec::new();
    let mut j: usize = 0;
    while j < v.len()
        invariant
            j <= v.len(),
            same_forest(copies@, v@.take(j as int)),
        decreases v.len() - j,
    {
        proof {
            assert(decreases_to!(*v => v[j as int]));
        }
        let c = copy_outline(&v[j]);
        let ghost before = copies@;
        copies.push(c);
        proof {
            let t = v@.take(j + 1);
            assert(t.drop_last() =~= v@.take(j as int));
            assert(copies@.drop_last() =~= before);
        }
        j += 1;
    }
    proof {
        assert(v@.take(j as int) =~= v@);
    }
    copies
}

impl Clone for Head {
    fn clone(&self) -> (r: Head)
        ensures
            r == *self,
    {
        Head {
            title: copy_text(&self.title),
            date_created: copy_text(&self.date_created),
            date_modified: copy_text(&self.date_modified),
            owner_name: copy_text(&self.owner_name),
            owner_email: copy_text(&self.owner_email),
            owner_id: copy_text(&self.owner_id),
            docs: copy_text(&self.docs),
            expansion_state: copy_text(&self.expansion_state),
            vert_scroll_state: copy_text(&self.vert_scroll_state),
            window_top: copy_text(&self.window_top),
            window_bottom: copy_text(&self.window_bottom),
        }
    }
}

impl Clone for Body {
    /// A deep copy of every outline of the body.
    fn clone(&self) -> (r: Body)
        ensures
            same_forest(r.outline@, self.outline@),
    {
        Body { outline: copy_forest(&self.outline) }
    }
}

impl Clone for Opml {
    /// A deep copy of the whole document.
    fn clone(&self) -> (r: Opml)
        ensures
            r.version == self.version,
            r.head == self.head,
            same_forest(r.body.outline@, self.body.outline@),
    {
        Opml { version: self.version.clone(), head: self.head.clone(), body: self.body.clone() }
    }
}

} // verus!
