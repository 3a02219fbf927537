//! Cleaning the HTML of a message before it is shown: inline images are
//! pointed at the attachment download route, then `ammonia` keeps only the
//! tags, attributes and styles that the mail view allows.

use vstd::prelude::*;

use crate::text::{extend, find_str, find_str_chars, from_chars, lemma_find_str_from_bounds, slice, to_chars};

verus! {

// ---------------------------------------------------------------------------
// Inline images
// ---------------------------------------------------------------------------

/// `s` with every occurrence of `pat` replaced by `rep`, left to right
/// (`str::replace` with a non-empty pattern).
pub open spec fn replace_all(s: Seq<char>, pat: Seq<char>, rep: Seq<char>) -> Seq<char>
    decreases s.len(),
{
    if pat.len() == 0 {
        s
    } else {
        match find_str(s, pat) {
            Some(i) => if 0 <= i && i + pat.len() <= s.len() {
                s.take(i) + rep + replace_all(s.skip(i + pat.len()), pat, rep)
            } else {
                s
            },
            None => s,
        }
    }
}

/// `v` with every occurrence of `pat` replaced by `rep`.
pub fn replace_all_chars(v: &Vec<char>, pat: &Vec<char>, rep: &Vec<char>) -> (r: Vec<char>)
    requires
        pat@.len() > 0,
    ensures
        r@ == replace_all(v@, pat@, rep@),
{
    let mut out: Vec<char> = Vec::new();
    let mut rest = v.clone();
    loop
        invariant
            pat@.len() > 0,
            replace_all(v@, pat@, rep@) == out@ + replace_all(rest@, pat@, rep@),
        decreases rest@.len(),
    {
        match find_str_chars(&rest, pat) {
            Some(i) => {
                proof {
                    lemma_find_str_from_bounds(rest@, pat@, 0);
                }
                let n = rest.len();
                let head = slice(&rest, 0, i);
                let tail = slice(&rest, i + pat.len(), n);
                let ghost before = out@;
                extend(&mut out, &head);
                extend(&mut out, rep);
                proof {
                    assert(head@ =~= rest@.take(i as int));
                    assert(tail@ =~= rest@.skip(i + pat@.len()));
                    assert(before + (rest@.take(i as int) + rep@ + replace_all(tail@, pat@, rep@)) =~= out@
                        + replace_all(tail@, pat@, rep@));
                }
                rest = tail;
            },
            None => {
                extend(&mut out, &rest);
                return out;
            },
        }
    }
}

/// Where an inline image is served: the download route of its blob.
pub open spec fn cid_target(blob_id: Seq<char>) -> Seq<char> {
    "/api/v1/attachments/"@ + blob_id
}

/// The HTML with each `cid:` reference of the map, in the map's order,
/// replaced by the download route of its blob.
pub open spec fn resolve_cids(html: Seq<char>, cids: Seq<(String, String)>) -> Seq<char>
    decreases cids.len(),
{
    if cids.len() == 0 {
        html
    } else {
        resolve_cids(
            replace_all(html, "cid:"@ + cids[0].0@, cid_target(cids[0].1@)),
            cids.drop_first(),
        )
    }
}

/// Resolving against two maps put end to end resolves against the first,
/// then against the second.
pub proof fn lemma_resolve_cids_concat(html: Seq<char>, a: Seq<(String, String)>, b: Seq<(String, String)>)
    ensures
        resolve_cids(html, a + b) == resolve_cids(resolve_cids(html, a), b),
    decreases a.len(),
{
    if a.len() == 0 {
        assert(a + b =~= b);
    } else {
        let first = replace_all(html, "cid:"@ + a[0].0@, cid_target(a[0].1@));
        assert((a + b)[0] == a[0]);
        assert((a + b).drop_first() =~= a.drop_first() + b);
        lemma_resolve_cids_concat(first, a.drop_first(), b);
    }
}

/// Every entry of the map is applied, whatever the map's size: with no
/// entry the HTML is unchanged, and one more entry at the end of the map
/// replaces, in what the map resolved to, every `cid:` reference to that
/// entry's content id with the download route of its blob.
pub proof fn lemma_resolve_cids_push(html: Seq<char>, cids: Seq<(String, String)>, c: (String, String))
    ensures
        resolve_cids(html, Seq::empty()) == html,
        resolve_cids(html, cids.push(c)) == replace_all(
            resolve_cids(html, cids),
            "cid:"@ + c.0@,
            "/api/v1/attachments/"@ + c.1@,
        ),
{
    assert(cids.push(c) =~= cids + seq![c]);
    lemma_resolve_cids_concat(html, cids, seq![c]);
    let before = resolve_cids(html, cids);
    let after = replace_all(before, "cid:"@ + c.0@, cid_target(c.1@));
    assert(seq![c][0] == c);
    assert(seq![c].drop_first() =~= Seq::<(String, String)>::empty());
    assert(resolve_cids(after, Seq::<(String, String)>::empty()) == after);
    assert(resolve_cids(before, seq![c]) == resolve_cids(after, seq![c].drop_first()));
}

/// Points each `cid:` reference of the HTML at the blob that the map gives
/// for its content id.
pub fn resolve_cid_urls(html: &str, cid_map: &Vec<(String, String)>) -> (r: String)
    ensures
        r@ == resolve_cids(html@, cid_map@),
{
    let mut result = to_chars(html);
    let mut i: usize = 0;
    assert(cid_map@.skip(0) =~= cid_map@);
    while i < cid_map.len()
        invariant
            i <= cid_map@.len(),
            resolve_cids(html@, cid_map@) == resolve_cids(result@, cid_map@.skip(i as int)),
        decreases cid_map@.len() - i,
    {
        let mut pat = to_chars("cid:");
        extend(&mut pat, &to_chars(cid_map[i].0.as_str()));
        let mut rep = to_chars("/api/v1/attachments/");
        extend(&mut rep, &to_chars(cid_map[i].1.as_str()));
        proof {
            reveal_strlit("cid:");
        }
        let ghost rest = cid_map@.skip(i as int);
        assert(rest[0] == cid_map@[i as int]);
        assert(rest.drop_first() =~= cid_map@.skip(i + 1));
        result = replace_all_chars(&result, &pat, &rep);
        i = i + 1;
    }
    from_chars(&result)
}

// ---------------------------------------------------------------------------
// What the mail view allows
// ---------------------------------------------------------------------------

/// What `ammonia` is told to keep, on top of its defaults.
#[derive(Debug, Clone)]
pub struct HtmlPolicy {
    /// Tags allowed besides the default ones.
    pub tags: Vec<String>,
    /// Attributes allowed on every tag.
    pub generic_attributes: Vec<String>,
    /// Attributes allowed on particular tags.
    pub tag_attributes: Vec<(String, Vec<String>)>,
    /// A tag, an attribute and the value it is always given.
    pub forced_tag: String,
    pub forced_attribute: String,
    pub forced_value: String,
    /// The `rel` of every link.
    pub link_rel: String,
    /// The prefix given to every `id`.
    pub id_prefix: String,
    pub strip_comments: bool,
    /// The only properties kept in `style` attributes.
    pub style_properties: Vec<String>,
}

pub open spec fn string_views(v: Seq<String>) -> Seq<Seq<char>> {
    v.map_values(|s: String| s@)
}

pub open spec fn tag_attribute_views(v: Seq<(String, Vec<String>)>) -> Seq<(Seq<char>, Seq<Seq<char>>)> {
    v.map_values(|e: (String, Vec<String>)| (e.0@, string_views(e.1@)))
}

/// What `ammonia::Builder::clean` leaves of `html` under a policy.
pub uninterp spec fn cleaned_html(
    html: Seq<char>,
    tags: Seq<Seq<char>>,
    generic_attributes: Seq<Seq<char>>,
    tag_attributes: Seq<(Seq<char>, Seq<Seq<char>>)>,
    forced_attribute: (Seq<char>, Seq<char>, Seq<char>),
    link_rel: Seq<char>,
    id_prefix: Seq<char>,
    strip_comments: bool,
    style_properties: Seq<Seq<char>>,
) -> Seq<char>;

/// A policy on which `Builder::clean` does not stop on one of its
/// assertions: the tags whose content `ammonia` removes (`script`,
/// `style`) are neither allowed nor given attributes, and `rel` is neither
/// a generic attribute nor an attribute allowed on `a`, since links get a
/// `rel` of their own.
pub open spec fn cleanable(p: HtmlPolicy) -> bool {
    &&& !string_views(p.tags@).contains("script"@)
    &&& !string_views(p.tags@).contains("style"@)
    &&& forall|i: int|
        0 <= i < p.tag_attributes@.len() ==> (#[trigger] p.tag_attributes@[i]).0@ != "script"@
            && p.tag_attributes@[i].0@ != "style"@
    &&& !string_views(p.generic_attributes@).contains("rel"@)
    &&& forall|i: int|
        0 <= i < p.tag_attributes@.len() && (#[trigger] p.tag_attributes@[i]).0@ == "a"@
            ==> !string_views(p.tag_attributes@[i].1@).contains("rel"@)
}

/// `ammonia::Builder::new()` set up with the policy, then `clean(html)`.
#[verifier::external_body]
fn clean_with_policy(html: &str, p: &HtmlPolicy) -> (r: String)
    requires
        cleanable(*p),
    ensures
        r@ == cleaned_html(
            html@,
            string_views(p.tags@),
            string_views(p.generic_attributes@),
            tag_attribute_views(p.tag_attributes@),
            (p.forced_tag@, p.forced_attribute@, p.forced_value@),
            p.link_rel@,
            p.id_prefix@,
            p.strip_comments,
            string_views(p.style_properties@),
        ),
{
    let mut b = ammonia::Builder::new();
    b.add_tags(p.tags.iter().map(String::as_str)).add_generic_attributes(
        p.generic_attributes.iter().map(String::as_str),
    ).set_tag_attribute_value(
        p.forced_tag.as_str(),
        p.forced_attribute.as_str(),
        p.forced_value.as_str(),
    ).link_rel(Some(p.link_rel.as_str())).id_prefix(Some(p.id_prefix.as_str())).strip_comments(
        p.strip_comments,
    ).filter_style_properties(p.style_properties.iter().map(String::as_str).collect());
    for (tag, attrs) in &p.tag_attributes {
        b.add_tag_attributes(tag.as_str(), attrs.iter().map(String::as_str));
    }
    b.clean(html).to_string()
}

fn owned_strings(v: &[&str]) -> (r: Vec<String>)
    ensures
        string_views(r@) == v@.map_values(|s: &str| s@),
{
    let mut out: Vec<String> = Vec::new();
    let mut i: usize = 0;
    while i < v.len()
        invariant
            i <= v@.len(),
            string_views(out@) == v@.take(i as int).map_values(|s: &str| s@),
        decreases v@.len() - i,
    {
        let ghost before = out@;
        out.push(v[i].to_owned());
        assert(string_views(out@) =~= string_views(before).push(v@[i as int]@));
        assert(v@.take(i + 1).map_values(|s: &str| s@) =~= v@.take(i as int).map_values(|s: &str| s@).push(
            v@[i as int]@,
        ));
        i = i + 1;
    }
    assert(v@.take(v@.len() as int) =~= v@);
    out
}

/// The tags that mail may use on top of `ammonia`'s defaults.
pub open spec fn mail_tags() -> Seq<Seq<char>> {
    seq![
        "table"@, "thead"@, "tbody"@, "tfoot"@, "tr"@, "td"@, "th"@, "caption"@, "colgroup"@,
        "col"@, "center"@, "div"@, "span"@, "img"@, "hr"@, "br"@,
    ]
}

/// The attributes that every tag may carry.
pub open spec fn mail_generic_attributes() -> Seq<Seq<char>> {
    seq!["style"@, "class"@, "id"@]
}

/// The attributes that tables, their cells and rows, and images may carry.
pub open spec fn mail_tag_attributes() -> Seq<(Seq<char>, Seq<Seq<char>>)> {
    let cell = seq!["bgcolor"@, "valign"@, "align"@, "width"@, "height"@, "colspan"@, "rowspan"@];
    seq![
        ("table"@, seq!["bgcolor"@, "width"@, "height"@, "cellpadding"@, "cellspacing"@, "border"@, "align"@]),
        ("td"@, cell),
        ("th"@, cell),
        ("tr"@, seq!["bgcolor"@, "valign"@, "align"@]),
        ("img"@, seq!["src"@, "alt"@, "width"@, "height"@]),
    ]
}

/// The properties that `style` attributes may keep.
pub open spec fn mail_style_properties() -> Seq<Seq<char>> {
    seq![
        "color"@, "background-color"@, "background"@, "font-family"@, "font-size"@,
        "font-weight"@, "font-style"@, "font-variant"@, "text-align"@, "text-decoration"@,
        "text-transform"@, "text-indent"@, "margin"@, "margin-top"@, "margin-right"@,
        "margin-bottom"@, "margin-left"@, "padding"@, "padding-top"@, "padding-right"@,
        "padding-bottom"@, "padding-left"@, "border"@, "border-top"@, "border-right"@,
        "border-bottom"@, "border-left"@, "border-color"@, "border-style"@, "border-width"@,
        "width"@, "height"@, "max-width"@, "min-width"@, "max-height"@, "display"@,
        "vertical-align"@, "float"@, "list-style"@, "list-style-type"@, "table-layout"@,
        "border-collapse"@, "border-spacing"@, "line-height"@, "letter-spacing"@,
    ]
}

/// The policy of the mail view: table layouts, images and inline styles
/// of text and boxes; links open in a new tab without referrer; ids are
/// prefixed with `email-`; comments are dropped.
pub open spec fn is_mail_policy(p: HtmlPolicy) -> bool {
    &&& string_views(p.tags@) == mail_tags()
    &&& string_views(p.generic_attributes@) == mail_generic_attributes()
    &&& tag_attribute_views(p.tag_attributes@) == mail_tag_attributes()
    &&& p.forced_tag@ == "a"@
    &&& p.forced_attribute@ == "target"@
    &&& p.forced_value@ == "_blank"@
    &&& p.link_rel@ == "noopener noreferrer"@
    &&& p.id_prefix@ == "email-"@
    &&& p.strip_comments
    &&& string_views(p.style_properties@) == mail_style_properties()
}

/// A tag name of another length than `script` and `style`, or not
/// starting with `s`, is neither of them.
proof fn lemma_not_dropped_tag(t: Seq<char>)
    requires
        t.len() > 0,
        (t.len() != 5 && t.len() != 6) || t[0] != 's',
    ensures
        t != "script"@,
        t != "style"@,
{
    reveal_strlit("script");
    reveal_strlit("style");
    if t == "script"@ {
        assert(t[0] == "script"@[0]);
    }
    if t == "style"@ {
        assert(t[0] == "style"@[0]);
    }
}

/// The policy of the mail view.
pub fn mail_html_policy() -> (r: HtmlPolicy)
    ensures
        is_mail_policy(r),
        cleanable(r),
{
    let tags = owned_strings(
        &[
            "table", "thead", "tbody", "tfoot", "tr", "td", "th", "caption", "colgroup", "col",
            "center", "div", "span", "img", "hr", "br",
        ],
    );
    let generic_attributes = owned_strings(&["style", "class", "id"]);
    let cell: [&str; 7] = ["bgcolor", "valign", "align", "width", "height", "colspan", "rowspan"];
    let mut tag_attributes: Vec<(String, Vec<String>)> = Vec::new();
    tag_attributes.push(
        (
            "table".to_owned(),
            owned_strings(&["bgcolor", "width", "height", "cellpadding", "cellspacing", "border", "align"]),
        ),
    );
    tag_attributes.push(("td".to_owned(), owned_strings(&cell)));
    tag_attributes.push(("th".to_owned(), owned_strings(&cell)));
    tag_attributes.push(("tr".to_owned(), owned_strings(&["bgcolor", "valign", "align"])));
    tag_attributes.push(("img".to_owned(), owned_strings(&["src", "alt", "width", "height"])));
    let style_properties = owned_strings(
        &[
            "color", "background-color", "background", "font-family", "font-size", "font-weight",
            "font-style", "font-variant", "text-align", "text-decoration", "text-transform",
            "text-indent", "margin", "margin-top", "margin-right", "margin-bottom", "margin-left",
            "padding", "padding-top", "padding-right", "padding-bottom", "padding-left", "border",
            "border-top", "border-right", "border-bottom", "border-left", "border-color",
            "border-style", "border-width", "width", "height", "max-width", "min-width",
            "max-height", "display", "vertical-align", "float", "list-style", "list-style-type",
            "table-layout", "border-collapse", "border-spacing", "line-height", "letter-spacing",
        ],
    );
    let r = HtmlPolicy {
        tags,
        generic_attributes,
        tag_attributes,
        forced_tag: "a".to_owned(),
        forced_attribute: "target".to_owned(),
        forced_value: "_blank".to_owned(),
        link_rel: "noopener noreferrer".to_owned(),
        id_prefix: "email-".to_owned(),
        strip_comments: true,
        style_properties,
    };
    assert(string_views(r.tags@) =~= mail_tags());
    assert(string_views(r.generic_attributes@) =~= mail_generic_attributes());
    assert(tag_attribute_views(r.tag_attributes@)[0] == mail_tag_attributes()[0]);
    assert(tag_attribute_views(r.tag_attributes@)[1] == mail_tag_attributes()[1]);
    assert(tag_attribute_views(r.tag_attributes@)[2] == mail_tag_attributes()[2]);
    assert(tag_attribute_views(r.tag_attributes@)[3] == mail_tag_attributes()[3]);
    assert(tag_attribute_views(r.tag_attributes@)[4] == mail_tag_attributes()[4]);
    assert(tag_attribute_views(r.tag_attributes@) =~= mail_tag_attributes());
    assert(string_views(r.style_properties@) =~= mail_style_properties());
    proof {
        reveal_strlit("script");
        reveal_strlit("style");
        reveal_strlit("rel");
        reveal_strlit("table");
        reveal_strlit("td");
        reveal_strlit("th");
        reveal_strlit("tr");
        reveal_strlit("img");
        reveal_strlit("class");
        reveal_strlit("id");
        reveal_strlit("thead");
        reveal_strlit("tbody");
        reveal_strlit("tfoot");
        reveal_strlit("caption");
        reveal_strlit("colgroup");
        reveal_strlit("col");
        reveal_strlit("center");
        reveal_strlit("div");
        reveal_strlit("span");
        reveal_strlit("hr");
        reveal_strlit("br");
        lemma_not_dropped_tag(mail_tags()[0]);
        lemma_not_dropped_tag(mail_tags()[1]);
        lemma_not_dropped_tag(mail_tags()[2]);
        lemma_not_dropped_tag(mail_tags()[3]);
        lemma_not_dropped_tag(mail_tags()[4]);
        lemma_not_dropped_tag(mail_tags()[5]);
        lemma_not_dropped_tag(mail_tags()[6]);
        lemma_not_dropped_tag(mail_tags()[7]);
        lemma_not_dropped_tag(mail_tags()[8]);
        lemma_not_dropped_tag(mail_tags()[9]);
        lemma_not_dropped_tag(mail_tags()[10]);
        lemma_not_dropped_tag(mail_tags()[11]);
        lemma_not_dropped_tag(mail_tags()[12]);
        lemma_not_dropped_tag(mail_tags()[13]);
        lemma_not_dropped_tag(mail_tags()[14]);
        lemma_not_dropped_tag(mail_tags()[15]);
        assert(mail_generic_attributes()[0].len() == 5 && "rel"@.len() == 3);
        assert(mail_generic_attributes()[0] != "rel"@);
        assert(mail_generic_attributes()[1].len() == 5 && "rel"@.len() == 3);
        assert(mail_generic_attributes()[1] != "rel"@);
        assert(mail_generic_attributes()[2].len() == 2);
        assert(mail_generic_attributes()[2] != "rel"@);
        assert(!mail_tags().contains("script"@));
        assert(!mail_tags().contains("style"@));
        assert(!mail_generic_attributes().contains("rel"@));
        reveal_strlit("a");
        assert forall|i: int| 0 <= i < r.tag_attributes@.len() implies (#[trigger] r.tag_attributes@[i]).0@
            != "script"@ && r.tag_attributes@[i].0@ != "style"@ && r.tag_attributes@[i].0@ != "a"@ by {
            assert(r.tag_attributes@[i].0@ == mail_tag_attributes()[i].0);
        }
    }
    r
}

/// `html` cleaned under the policy of the mail view.
pub open spec fn mail_cleaned(html: Seq<char>) -> Seq<char> {
    cleaned_html(
        html,
        mail_tags(),
        mail_generic_attributes(),
        mail_tag_attributes(),
        ("a"@, "target"@, "_blank"@),
        "noopener noreferrer"@,
        "email-"@,
        true,
        mail_style_properties(),
    )
}

/// The HTML of a message as the mail view shows it: inline images resolved
/// to download routes, then cleaned under the policy of the mail view.
pub open spec fn safe_email_html(raw_html: Seq<char>, cids: Seq<(String, String)>) -> Seq<char> {
    mail_cleaned(resolve_cids(raw_html, cids))
}

/// The HTML of a message made safe to show.
pub fn sanitize_email_html(raw_html: &str, cid_map: &Vec<(String, String)>) -> (r: String)
    ensures
        r@ == safe_email_html(raw_html@, cid_map@),
{
    let html = resolve_cid_urls(raw_html, cid_map);
    let policy = mail_html_policy();
    let r = clean_with_policy(html.as_str(), &policy);
    r
}

} // verus!
