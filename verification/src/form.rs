//! Legacy web-form automation.
//!
//! The target site's postback protocol accepts a submission only when the
//! submitted fields replicate a browser's exactly, so the field
//! collection below follows the browser rules precisely: which elements
//! belong to a form, how each input type contributes, and last-write-wins
//! on duplicate names across document scan order.

use vstd::prelude::*;
use vstd::string::*;
use crate::errors::CrawlError;
use crate::html::{get_attr, is_desc, is_descendant, node_attr, HtmlDocument, HtmlNode};
use crate::strutil::{str_eq, to_ascii_upper, upper_spec};
use crate::urls::{join_url, url_join};

verus! {

/// An HTML form, owned independently of the document it came from.
#[derive(Debug)]
pub struct Form {
    /// The form element's `id` attribute, if any.
    pub id: Option<String>,
    /// The submission method, upper-cased; `POST` when the form names
    /// none.
    pub method: String,
    /// The submission URL: the `action` resolved against the page's URL,
    /// or the page's URL itself when there is no `action`.
    pub url: String,
    /// The fields, in collection order, one pair per name: this list is
    /// the submitted body, so a duplicate would corrupt the postback.
    pub fields: Vec<(String, String)>,
}

/// The mapping a field list denotes: later entries win.
pub open spec fn fields_map(s: Seq<(String, String)>) -> Map<Seq<char>, Seq<char>>
    decreases s.len(),
{
    if s.len() == 0 {
        Map::empty()
    } else {
        fields_map(s.drop_last()).insert(s.last().0@, s.last().1@)
    }
}

/// No two fields carry the same name: the list a form submits and the
/// mapping it denotes agree.
pub open spec fn fields_wf(s: Seq<(String, String)>) -> bool {
    forall|i: int, j: int| 0 <= i < j < s.len() ==> s[i].0@ != s[j].0@
}

/// Whether `c` is an HTTP token character — what the original method
/// grammar admits in a method name.
pub open spec fn is_tchar(c: char) -> bool {
    let u = c as u32;
    (48 <= u && u <= 57) || (65 <= u && u <= 90) || (97 <= u && u <= 122) || u == 33 || u == 35
        || u == 36 || u == 37 || u == 38 || u == 39 || u == 42 || u == 43 || u == 45 || u == 46
        || u == 94 || u == 95 || u == 96 || u == 124 || u == 126
}

/// Whether `s` is a valid HTTP method: non-empty and token characters
/// only.  A form whose `method` attribute fails this is rejected, as the
/// original submission path rejected it.
pub open spec fn is_method_token(s: Seq<char>) -> bool {
    s.len() > 0 && forall|j: int| 0 <= j < s.len() ==> is_tchar(s[j])
}

/// Check a method string against the HTTP token grammar.
pub fn method_token(s: &str) -> (r: bool)
    ensures
        r == is_method_token(s@),
{
    let n = s.unicode_len();
    if n == 0 {
        return false;
    }
    let mut i: usize = 0;
    while i < n
        invariant
            i <= n,
            n == s@.len(),
            n > 0,
            forall|j: int| 0 <= j < i ==> is_tchar(s@[j]),
        decreases n - i,
    {
        let u = s.get_char(i) as u32;
        let ok = (48 <= u && u <= 57) || (65 <= u && u <= 90) || (97 <= u && u <= 122)
            || u == 33 || u == 35 || u == 36 || u == 37 || u == 38 || u == 39 || u == 42
            || u == 43 || u == 45 || u == 46 || u == 94 || u == 95 || u == 96 || u == 124
            || u == 126;
        if !ok {
            return false;
        }
        i = i + 1;
    }
    true
}

/// Whether element `i` belongs to the form at `f` whose id is `id`: it
/// either carries a `form` attribute equal to that id, or carries none
/// and sits inside the form element.  A `form` attribute naming another
/// id excludes the element even when it is nested inside this form.
pub open spec fn belongs_to_form(
    doc: Seq<HtmlNode>,
    f: int,
    id: Option<Seq<char>>,
    i: int,
) -> bool {
    match node_attr(doc[i], "form"@) {
        Some(fid) => id == Some(fid),
        None => is_desc(doc, f, i),
    }
}

/// The `type` of an input element, `text` when absent.
pub open spec fn input_type(n: HtmlNode) -> Seq<char> {
    match node_attr(n, "type"@) {
        Some(t) => t,
        None => "text"@,
    }
}

/// How element `i` changes the field mapping collected so far.
///
/// An `image` input contributes the synthesized click coordinates
/// `name.x` and `name.y` from its `width` and `height`; `reset` and
/// `submit` inputs contribute nothing; every other input contributes its
/// `value` (empty when absent); a `textarea` contributes its text
/// content.
pub open spec fn apply_element(
    m: Map<Seq<char>, Seq<char>>,
    doc: Seq<HtmlNode>,
    f: int,
    id: Option<Seq<char>>,
    i: int,
) -> Map<Seq<char>, Seq<char>> {
    let n = doc[i];
    if !belongs_to_form(doc, f, id, i) {
        m
    } else if n.tag@ == "input"@ {
        match node_attr(n, "name"@) {
            Some(nm) => {
                let ty = input_type(n);
                if ty == "image"@ {
                    let m1 = match node_attr(n, "width"@) {
                        Some(w) => m.insert(nm + ".x"@, w),
                        None => m,
                    };
                    match node_attr(n, "height"@) {
                        Some(h) => m1.insert(nm + ".y"@, h),
                        None => m1,
                    }
                } else if ty == "reset"@ || ty == "submit"@ {
                    m
                } else {
                    m.insert(
                        nm,
                        match node_attr(n, "value"@) {
                            Some(v) => v,
                            None => Seq::empty(),
                        },
                    )
                }
            },
            None => m,
        }
    } else if n.tag@ == "textarea"@ {
        match node_attr(n, "name"@) {
            Some(nm) => m.insert(nm, n.text@),
            None => m,
        }
    } else {
        m
    }
}

/// The field mapping collected from the first `k` elements of the
/// document, in document scan order.
pub open spec fn form_fields_upto(
    doc: Seq<HtmlNode>,
    f: int,
    id: Option<Seq<char>>,
    k: int,
) -> Map<Seq<char>, Seq<char>>
    decreases k,
    when k >= 0
{
    if k <= 0 {
        Map::empty()
    } else {
        apply_element(form_fields_upto(doc, f, id, k - 1), doc, f, id, k - 1)
    }
}

/// The field mapping of the form at `f`.
pub open spec fn form_fields(doc: Seq<HtmlNode>, f: int, id: Option<Seq<char>>) -> Map<
    Seq<char>,
    Seq<char>,
> {
    form_fields_upto(doc, f, id, doc.len() as int)
}

/// The submission method a form element denotes.
pub open spec fn form_method_spec(n: HtmlNode) -> Seq<char> {
    match node_attr(n, "method"@) {
        Some(m) => upper_spec(m),
        None => "POST"@,
    }
}

/// The submission URL a form element denotes against a base URL.
pub open spec fn form_url_spec(n: HtmlNode, base: Seq<char>) -> Option<Seq<char>> {
    match node_attr(n, "action"@) {
        Some(a) => url_join(base, a),
        None => Some(base),
    }
}

/// Whether node `j` is a `form` element named `name`.
pub open spec fn is_form_named(doc: Seq<HtmlNode>, j: int, name: Seq<char>) -> bool {
    doc[j].tag@ == "form"@ && node_attr(doc[j], "name"@) == Some(name)
}

/// The first form element at or after `j` named `name`, if any.
pub open spec fn find_form_from(doc: Seq<HtmlNode>, name: Seq<char>, j: int) -> Option<int>
    decreases doc.len() - j,
    when 0 <= j <= doc.len()
{
    if j >= doc.len() {
        None
    } else if is_form_named(doc, j, name) {
        Some(j)
    } else {
        find_form_from(doc, name, j + 1)
    }
}

/// The first form element named `name`, by its `name` attribute (not its
/// id).
pub open spec fn find_form(doc: Seq<HtmlNode>, name: Seq<char>) -> Option<int> {
    find_form_from(doc, name, 0)
}

/// What a correctly built form of the form element at `f` looks like.
pub open spec fn form_ok(doc: Seq<HtmlNode>, f: int, base: Seq<char>, form: Form) -> bool {
    &&& crate::shapes::opt_str_view(form.id) == node_attr(doc[f], "id"@)
    &&& form.method@ == form_method_spec(doc[f])
    &&& Some(form.url@) == form_url_spec(doc[f], base)
    &&& fields_map(form.fields@) == form_fields(doc, f, node_attr(doc[f], "id"@))
}

impl Form {
    /// The mapping the form's fields denote.
    pub open spec fn fields_view(&self) -> Map<Seq<char>, Seq<char>> {
        fields_map(self.fields@)
    }

    /// The submitted field list carries each name once.
    pub open spec fn wf(&self) -> bool {
        fields_wf(self.fields@)
    }

    /// Set a field, replacing in place any field carrying the name, so
    /// the submitted list never holds a shadowed duplicate pair.
    /// Returns whether a value was already recorded.
    pub fn set(&mut self, name: &str, value: &str) -> (replaced: bool)
        requires
            old(self).wf(),
        ensures
            final(self).wf(),
            final(self).fields_view() == old(self).fields_view().insert(name@, value@),
            final(self).id == old(self).id,
            final(self).method == old(self).method,
            final(self).url == old(self).url,
            replaced == old(self).fields_view().dom().contains(name@),
    {
        store_field(&mut self.fields, String::from_str(name), String::from_str(value))
    }

    /// The value recorded under `name`, if any.
    pub fn get(&self, name: &str) -> (r: Option<String>)
        ensures
            match r {
                Some(v) => self.fields_view().dom().contains(name@) && v@
                    == self.fields_view()[name@],
                None => !self.fields_view().dom().contains(name@),
            },
    {
        lookup_field(&self.fields, name)
    }

    /// Build the form named `name` (by its `name` attribute) from a
    /// document, resolving its submission URL against `base_url`.
    pub fn from_form_name(doc: &HtmlDocument, base_url: &str, name: &str) -> (r: Result<
        Form,
        CrawlError,
    >)
        requires
            doc.wf(),
        ensures
            match r {
                Ok(form) => find_form(doc.nodes@, name@) matches Some(f) && form_ok(
                    doc.nodes@,
                    f,
                    base_url@,
                    form,
                ) && form.wf() && is_method_token(form_method_spec(doc.nodes@[f])),
                Err(e) => match find_form(doc.nodes@, name@) {
                    None => e matches CrawlError::FormNotFound { name: n } && n@ == name@,
                    Some(f) => (form_url_spec(doc.nodes@[f], base_url@) is None
                        || !is_method_token(form_method_spec(doc.nodes@[f]))) && e matches
                        CrawlError::ElementNotFound { .. },
                },
            },
    {
        match find_form_index(doc, name) {
            Some(f) => Form::from_form_node(doc, f, base_url),
            None => Err(CrawlError::FormNotFound { name: String::from_str(name) }),
        }
    }

    /// Build the form from the form element at `form_index`.
    pub fn from_form_node(doc: &HtmlDocument, form_index: usize, base_url: &str) -> (r: Result<
        Form,
        CrawlError,
    >)
        requires
            doc.wf(),
            form_index < doc.nodes@.len(),
        ensures
            match r {
                Ok(form) => form_ok(doc.nodes@, form_index as int, base_url@, form) && form.wf()
                    && is_method_token(form_method_spec(doc.nodes@[form_index as int])),
                Err(e) => (form_url_spec(doc.nodes@[form_index as int], base_url@) is None
                    || !is_method_token(form_method_spec(doc.nodes@[form_index as int])))
                    && e matches CrawlError::ElementNotFound { .. },
            },
    {
        let fnode = &doc.nodes[form_index];
        let method = match get_attr(fnode, "method") {
            Some(m) => to_ascii_upper(m.as_str()),
            None => String::from_str("POST"),
        };
        proof {
            reveal_strlit("method");
            reveal_strlit("POST");
        }
        if !method_token(method.as_str()) {
            return Err(CrawlError::ElementNotFound { detail: method });
        }
        let url = match get_attr(fnode, "action") {
            Some(a) => match join_url(base_url, a.as_str()) {
                Some(u) => u,
                None => {
                    return Err(CrawlError::ElementNotFound { detail: a });
                },
            },
            None => String::from_str(base_url),
        };
        let id = get_attr(fnode, "id");
        let fields = collect_fields(doc, form_index, &id);
        Ok(Form { id, method, url, fields })
    }
}

impl Clone for Form {
    /// Clones keep the submission target and the fields, in order.
    fn clone(&self) -> (r: Self)
        ensures
            crate::shapes::opt_str_view(r.id) == crate::shapes::opt_str_view(self.id),
            r.method@ == self.method@,
            r.url@ == self.url@,
            r.fields@ == self.fields@,
    {
        let n = self.fields.len();
        let mut fields: Vec<(String, String)> = Vec::new();
        let mut i: usize = 0;
        while i < n
            invariant
                i <= n,
                n == self.fields@.len(),
                fields@ == self.fields@.subrange(0, i as int),
            decreases n - i,
        {
            fields.push((self.fields[i].0.clone(), self.fields[i].1.clone()));
            proof {
                assert(fields@ =~= self.fields@.subrange(0, i as int + 1));
            }
            i = i + 1;
        }
        proof {
            assert(self.fields@.subrange(0, n as int) =~= self.fields@);
        }
        Form {
            id: match &self.id {
                Some(v) => Some(v.clone()),
                None => None,
            },
            method: self.method.clone(),
            url: self.url.clone(),
            fields,
        }
    }
}

/// A name is in the denoted mapping exactly when some field carries it.
proof fn lemma_fields_map_dom(s: Seq<(String, String)>, n: Seq<char>)
    ensures
        fields_map(s).dom().contains(n) <==> exists|i: int|
            0 <= i < s.len() && (#[trigger] s[i]).0@ == n,
    decreases s.len(),
{
    if s.len() > 0 {
        let sp = s.drop_last();
        lemma_fields_map_dom(sp, n);
        if s.last().0@ == n {
            assert(s[s.len() - 1].0@ == n);
        }
        if exists|i: int| 0 <= i < sp.len() && (#[trigger] sp[i]).0@ == n {
            let i = choose|i: int| 0 <= i < sp.len() && (#[trigger] sp[i]).0@ == n;
            assert(s[i].0@ == n);
        }
        if exists|i: int| 0 <= i < s.len() && (#[trigger] s[i]).0@ == n {
            let i = choose|i: int| 0 <= i < s.len() && (#[trigger] s[i]).0@ == n;
            if i < s.len() - 1 {
                assert(sp[i].0@ == n);
            }
        }
    }
}

/// Replacing the one field that carries `p`'s name updates the denoted
/// mapping at that name.
proof fn lemma_fields_map_update(s: Seq<(String, String)>, i: int, p: (String, String))
    requires
        0 <= i < s.len(),
        s[i].0@ == p.0@,
        forall|j: int| i < j < s.len() ==> (#[trigger] s[j]).0@ != p.0@,
    ensures
        fields_map(s.update(i, p)) == fields_map(s).insert(p.0@, p.1@),
    decreases s.len(),
{
    let u = s.update(i, p);
    let sp = s.drop_last();
    if i == s.len() - 1 {
        assert(u.drop_last() =~= sp);
        assert(u.last() == p);
        assert(fields_map(sp).insert(p.0@, p.1@) =~= fields_map(sp).insert(
            s[i].0@,
            s[i].1@,
        ).insert(p.0@, p.1@));
    } else {
        assert(s[s.len() - 1].0@ != p.0@);
        assert(u.drop_last() =~= sp.update(i, p));
        assert(u.last() == s.last());
        assert(forall|j: int| i < j < sp.len() ==> (#[trigger] sp[j]).0@ != p.0@);
        lemma_fields_map_update(sp, i, p);
        assert(fields_map(sp).insert(p.0@, p.1@).insert(s.last().0@, s.last().1@)
            =~= fields_map(sp).insert(s.last().0@, s.last().1@).insert(p.0@, p.1@));
    }
}

/// Record `name → value` in a field list: replace the field carrying the
/// name in place, or append a fresh one.  Returns whether a field was
/// replaced.
fn store_field(fields: &mut Vec<(String, String)>, name: String, value: String) -> (replaced:
    bool)
    requires
        fields_wf(old(fields)@),
    ensures
        fields_wf(final(fields)@),
        fields_map(final(fields)@) == fields_map(old(fields)@).insert(name@, value@),
        replaced == fields_map(old(fields)@).dom().contains(name@),
{
    let ghost nv = name@;
    let n = fields.len();
    let mut i: usize = 0;
    while i < n
        invariant
            i <= n,
            n == fields@.len(),
            fields@ == old(fields)@,
            fields_wf(fields@),
            forall|j: int| 0 <= j < i ==> (#[trigger] fields@[j]).0@ != nv,
            nv == name@,
        decreases n - i,
    {
        if str_eq(fields[i].0.as_str(), name.as_str()) {
            let p = (name, value);
            let ghost before = fields@;
            proof {
                lemma_fields_map_dom(before, nv);
                assert forall|j: int| i < j < before.len() implies (#[trigger] before[j]).0@
                    != nv by {
                    assert(before[i as int].0@ != before[j].0@);
                }
                lemma_fields_map_update(before, i as int, p);
            }
            fields.set(i, p);
            proof {
                assert forall|a: int, b: int| 0 <= a < b < fields@.len() implies (
                #[trigger] fields@[a]).0@ != (#[trigger] fields@[b]).0@ by {
                    assert(before[a].0@ != before[b].0@);
                    assert(fields@[a].0@ == before[a].0@);
                    assert(fields@[b].0@ == before[b].0@);
                }
            }
            return true;
        }
        i = i + 1;
    }
    proof {
        lemma_fields_map_dom(fields@, nv);
    }
    let ghost f0 = fields@;
    fields.push((name, value));
    proof {
        assert(fields@.drop_last() =~= f0);
        assert forall|a: int, b: int| 0 <= a < b < fields@.len() implies (
        #[trigger] fields@[a]).0@ != (#[trigger] fields@[b]).0@ by {
            if b < f0.len() {
                assert(f0[a].0@ != f0[b].0@);
            } else {
                assert(f0[a].0@ != nv);
            }
        }
    }
    false
}

/// The last value recorded under `name` in a field list.
fn lookup_field(fields: &Vec<(String, String)>, name: &str) -> (r: Option<String>)
    ensures
        match r {
            Some(v) => fields_map(fields@).dom().contains(name@) && v@
                == fields_map(fields@)[name@],
            None => !fields_map(fields@).dom().contains(name@),
        },
{
    let n = fields.len();
    let mut j: usize = n;
    proof {
        assert(fields@.subrange(0, n as int) =~= fields@);
    }
    while j > 0
        invariant
            j <= n,
            n == fields@.len(),
            fields_map(fields@).dom().contains(name@) == fields_map(
                fields@.subrange(0, j as int),
            ).dom().contains(name@),
            fields_map(fields@).dom().contains(name@) ==> fields_map(fields@)[name@]
                == fields_map(fields@.subrange(0, j as int))[name@],
        decreases j,
    {
        let ghost part = fields@.subrange(0, j as int);
        proof {
            assert(part.last() == fields@[j as int - 1]);
            assert(part.drop_last() =~= fields@.subrange(0, j as int - 1));
        }
        if str_eq(fields[j - 1].0.as_str(), name) {
            return Some(fields[j - 1].1.clone());
        }
        j = j - 1;
    }
    proof {
        assert(fields@.subrange(0, 0) =~= Seq::<(String, String)>::empty());
    }
    None
}

/// The index of the first form element named `name`, if any.
fn find_form_index(doc: &HtmlDocument, name: &str) -> (r: Option<usize>)
    requires
        doc.wf(),
    ensures
        match r {
            Some(f) => f < doc.nodes@.len() && find_form(doc.nodes@, name@) == Some(f as int),
            None => find_form(doc.nodes@, name@) is None,
        },
{
    let n = doc.nodes.len();
    let mut i: usize = 0;
    while i < n
        invariant
            i <= n,
            n == doc.nodes@.len(),
            find_form(doc.nodes@, name@) == find_form_from(doc.nodes@, name@, i as int),
        decreases n - i,
    {
        let node = &doc.nodes[i];
        let named = str_eq(node.tag.as_str(), "form") && match get_attr(node, "name") {
            Some(v) => str_eq(v.as_str(), name),
            None => false,
        };
        proof {
            assert(named == is_form_named(doc.nodes@, i as int, name@));
        }
        if named {
            return Some(i);
        }
        i = i + 1;
    }
    None
}

/// Collect the fields of the form at `f`, in document scan order.
fn collect_fields(doc: &HtmlDocument, f: usize, id: &Option<String>) -> (r: Vec<(String, String)>)
    requires
        doc.wf(),
        f < doc.nodes@.len(),
    ensures
        fields_map(r@) == form_fields(doc.nodes@, f as int, crate::shapes::opt_str_view(*id)),
        fields_wf(r@),
{
    let ghost idv = crate::shapes::opt_str_view(*id);
    let n = doc.nodes.len();
    let mut out: Vec<(String, String)> = Vec::new();
    let mut k: usize = 0;
    while k < n
        invariant
            k <= n,
            n == doc.nodes@.len(),
            doc.wf(),
            f < n,
            idv == crate::shapes::opt_str_view(*id),
            fields_map(out@) == form_fields_upto(doc.nodes@, f as int, idv, k as int),
            fields_wf(out@),
        decreases n - k,
    {
        let node = &doc.nodes[k];
        let ghost m0 = form_fields_upto(doc.nodes@, f as int, idv, k as int);
        let ghost out_in = out@;
        proof {
            reveal_strlit("form");
            reveal_strlit("input");
            reveal_strlit("textarea");
            reveal_strlit("name");
            reveal_strlit("type");
            reveal_strlit("text");
            reveal_strlit("image");
            reveal_strlit("reset");
            reveal_strlit("submit");
            reveal_strlit("value");
            reveal_strlit("width");
            reveal_strlit("height");
            reveal_strlit(".x");
            reveal_strlit(".y");
        }
        let belongs = match get_attr(node, "form") {
            Some(fid) => match id {
                Some(idval) => str_eq(idval.as_str(), fid.as_str()),
                None => false,
            },
            None => is_descendant(doc, f, k),
        };
        proof {
            assert(belongs == belongs_to_form(doc.nodes@, f as int, idv, k as int));
        }
        if belongs {
            if str_eq(node.tag.as_str(), "input") {
                match get_attr(node, "name") {
                    Some(nm) => {
                        let ghost nmv = nm@;
                        let ty = match get_attr(node, "type") {
                            Some(t) => t,
                            None => String::from_str("text"),
                        };
                        proof {
                            assert(ty@ == input_type(doc.nodes@[k as int]));
                        }
                        if str_eq(ty.as_str(), "image") {
                            match get_attr(node, "width") {
                                Some(w) => {
                                    let mut nx = nm.clone();
                                    nx.append(".x");
                                    let ghost wv = w@;
                                    store_field(&mut out, nx, w);
                                    proof {
                                        assert(fields_map(out@) == m0.insert(nmv + ".x"@, wv));
                                    }
                                },
                                None => {},
                            }
                            match get_attr(node, "height") {
                                Some(h) => {
                                    let mut ny = nm.clone();
                                    ny.append(".y");
                                    store_field(&mut out, ny, h);
                                },
                                None => {},
                            }
                            proof {
                                assert(fields_map(out@) == apply_element(
                                    m0,
                                    doc.nodes@,
                                    f as int,
                                    idv,
                                    k as int,
                                ));
                            }
                        } else if str_eq(ty.as_str(), "reset") || str_eq(
                            ty.as_str(),
                            "submit",
                        ) {
                        } else {
                            let v = match get_attr(node, "value") {
                                Some(v) => v,
                                None => String::new(),
                            };
                            store_field(&mut out, nm, v);
                            proof {
                                assert(fields_map(out@) == apply_element(
                                    m0,
                                    doc.nodes@,
                                    f as int,
                                    idv,
                                    k as int,
                                ));
                            }
                        }
                    },
                    None => {},
                }
            } else if str_eq(node.tag.as_str(), "textarea") {
                match get_attr(node, "name") {
                    Some(nm) => {
                        store_field(&mut out, nm, node.text.clone());
                    },
                    None => {},
                }
            }
        }
        proof {
            assert(form_fields_upto(doc.nodes@, f as int, idv, k as int + 1) == apply_element(
                m0,
                doc.nodes@,
                f as int,
                idv,
                k as int,
            ));
            assert(fields_map(out_in) == m0);
            assert(fields_map(out@) =~= apply_element(m0, doc.nodes@, f as int, idv, k as int));
        }
        k = k + 1;
    }
    out
}

} // verus!
