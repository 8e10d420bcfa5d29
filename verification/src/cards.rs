//! Image cards attached to model output: reading them and rendering them
//! as Markdown images in place of their `<grok:render>` tags.

use vstd::prelude::*;
use crate::text::{
    chars_of, eq_chars, extend, extend_str, find, find_exec, lemma_find_from_spec, occurs_at,
    slice_chars, string_of, trim, trim_exec,
};
use crate::ext::{json_pointer_str, json_str_at};
use crate::json::{Json, JsonV};
use crate::tools::{find_in_suffix, unwrap_or, unwrap_or_empty, attr_value};

verus! {

/// `s` with every `a` replaced by `b`.
pub open spec fn replace_char(s: Seq<char>, a: char, b: char) -> Seq<char> {
    s.map_values(|c: char| if c == a { b } else { c })
}

pub fn replace_char_exec(s: &[char], a: char, b: char) -> (r: Vec<char>)
    ensures
        r@ == replace_char(s@, a, b),
{
    let mut r: Vec<char> = Vec::new();
    let mut i: usize = 0;
    while i < s.len()
        invariant
            i <= s.len(),
            r@ == replace_char(s@.take(i as int), a, b),
        decreases s.len() - i,
    {
        let c = s[i];
        r.push(if c == a { b } else { c });
        assert(replace_char(s@.take(i + 1), a, b) =~= replace_char(s@.take(i as int), a, b).push(
            if c == a { b } else { c },
        ));
        i = i + 1;
    }
    assert(s@.take(s@.len() as int) == s@);
    r
}

// ---------------------------------------------------------------------------
// The card map
// ---------------------------------------------------------------------------

/// The title and image URL of the last entry of `e[..n]` with id `id`.
pub open spec fn last_entry(e: Seq<(Seq<char>, Seq<char>, Seq<char>)>, id: Seq<char>, n: int) -> Option<
    (Seq<char>, Seq<char>),
>
    decreases n,
{
    if n <= 0 || n > e.len() {
        None
    } else if e[n - 1].0 == id {
        Some((e[n - 1].1, e[n - 1].2))
    } else {
        last_entry(e, id, n - 1)
    }
}

/// Card id to image title and URL; a later entry for an id replaces an
/// earlier one.
pub struct CardMap {
    entries: Vec<(String, String, String)>,
}

impl CardMap {
    pub closed spec fn entries_view(&self) -> Seq<(Seq<char>, Seq<char>, Seq<char>)> {
        self.entries@.map_values(|t: (String, String, String)| (t.0@, t.1@, t.2@))
    }

    /// The title and URL recorded for `id`.
    pub open spec fn lookup(&self, id: Seq<char>) -> Option<(Seq<char>, Seq<char>)> {
        last_entry(self.entries_view(), id, self.entries_view().len() as int)
    }

    /// An empty map.
    pub fn new() -> (m: CardMap)
        ensures
            m.entries_view().len() == 0,
            forall|id: Seq<char>| #[trigger] m.lookup(id) is None,
    {
        let m = CardMap { entries: Vec::new() };
        assert(m.entries_view() =~= Seq::empty());
        m
    }

    /// Records `title` and `url` for `id`, replacing an earlier record.
    pub fn insert(&mut self, id: String, title: String, url: String)
        ensures
            final(self).entries_view() == old(self).entries_view().push((id@, title@, url@)),
    {
        let ghost old_view = self.entries_view();
        self.entries.push((id, title, url));
        assert(self.entries_view() =~= old_view.push((id@, title@, url@)));
    }

    pub fn is_empty(&self) -> (b: bool)
        ensures
            b == (self.entries_view().len() == 0),
    {
        self.entries.len() == 0
    }

    /// Whether no recorded title and no recorded URL holds a `<`; then
    /// rewriting render tags with this map comes to an end.
    pub fn holds_no_lt(&self) -> (b: bool)
        ensures
            b == entries_safe(self.entries_view()),
    {
        let ghost ev = self.entries_view();
        let mut i: usize = 0;
        while i < self.entries.len()
            invariant
                i <= self.entries@.len(),
                ev == self.entries_view(),
                ev.len() == self.entries@.len(),
                forall|j: int| 0 <= j < i ==> no_lt(#[trigger] ev[j].1) && no_lt(ev[j].2),
            decreases self.entries@.len() - i,
        {
            let e = &self.entries[i];
            assert(ev[i as int] == (e.0@, e.1@, e.2@));
            if !no_lt_exec(chars_of(e.1.as_str()).as_slice()) || !no_lt_exec(
                chars_of(e.2.as_str()).as_slice(),
            ) {
                proof {
                    lemma_unsafe_entry(ev, i as int);
                }
                return false;
            }
            i = i + 1;
        }
        true
    }

    /// The title and URL recorded for `id`.
    pub fn get(&self, id: &[char]) -> (r: Option<(Vec<char>, Vec<char>)>)
        ensures
            r matches Some((t, u)) ==> self.lookup(id@) == Some((t@, u@)),
            r is None ==> self.lookup(id@) is None,
    {
        let ghost ev = self.entries_view();
        let mut n = self.entries.len();
        while n > 0
            invariant
                n <= self.entries@.len(),
                ev == self.entries_view(),
                ev.len() == self.entries@.len(),
                last_entry(ev, id@, ev.len() as int) == last_entry(ev, id@, n as int),
            decreases n,
        {
            let e = &self.entries[n - 1];
            assert(ev[n - 1] == (e.0@, e.1@, e.2@));
            let key = chars_of(e.0.as_str());
            if eq_chars(key.as_slice(), id) {
                return Some((chars_of(e.1.as_str()), chars_of(e.2.as_str())));
            }
            n = n - 1;
        }
        None
    }

}

/// The title and URL that the entries `e` record for `id`: those of the
/// last entry for it.
pub open spec fn lookup_entry(e: Seq<(Seq<char>, Seq<char>, Seq<char>)>, id: Seq<char>) -> Option<(Seq<char>, Seq<char>)> {
    last_entry(e, id, e.len() as int)
}

/// No title and no URL of the entries holds a `<`.
pub open spec fn entries_safe(e: Seq<(Seq<char>, Seq<char>, Seq<char>)>) -> bool {
    forall|i: int| 0 <= i < e.len() ==> no_lt(#[trigger] e[i].1) && no_lt(e[i].2)
}

/// The entry a raw card attachment contributes to the card map. The keys
/// are looked up by JSON pointer; as none of them holds `/` or `~` or is a
/// number, a pointer finds what member lookups one after another find.
pub open spec fn card_entry(raw: JsonV) -> Option<(Seq<char>, Seq<char>, Seq<char>)> {
    match raw.as_str() {
        None => None,
        Some(text) => {
            let id = unwrap_or_empty(json_pointer_str(text, "/id"@));
            let original = unwrap_or_empty(json_pointer_str(text, "/image/original"@));
            if id.len() == 0 || original.len() == 0 {
                None
            } else {
                Some(
                    (
                        id,
                        replace_char(
                            unwrap_or_empty(json_pointer_str(text, "/image/title"@)),
                            '\n',
                            ' ',
                        ),
                        original,
                    ),
                )
            }
        },
    }
}

/// The entries contributed by a list of raw card attachments, in order.
pub open spec fn card_entries(cards: Seq<JsonV>) -> Seq<(Seq<char>, Seq<char>, Seq<char>)>
    decreases cards.len(),
{
    if cards.len() == 0 {
        Seq::empty()
    } else {
        let prev = card_entries(cards.drop_last());
        match card_entry(cards.last()) {
            Some(e) => prev.push(e),
            None => prev,
        }
    }
}

fn pointer_or_empty(text: &str, pointer: &str) -> (r: Vec<char>)
    ensures
        r@ == unwrap_or_empty(json_pointer_str(text@, pointer@)),
{
    match json_str_at(text, pointer) {
        Some(s) => chars_of(s.as_str()),
        None => Vec::new(),
    }
}

/// The card map of a list of raw card attachments (JSON texts).
pub fn build_card_map(card_attachments: &[Json]) -> (m: CardMap)
    ensures
        m.entries_view() == card_entries(crate::json::deep_seq(card_attachments@)),
{
    let mut m = CardMap::new();
    let mut i: usize = 0;
    let ghost cards = crate::json::deep_seq(card_attachments@);
    while i < card_attachments.len()
        invariant
            i <= card_attachments@.len(),
            cards == crate::json::deep_seq(card_attachments@),
            m.entries_view() == card_entries(cards.take(i as int)),
        decreases card_attachments@.len() - i,
    {
        assert(cards.take(i + 1).drop_last() == cards.take(i as int));
        assert(cards.take(i + 1).last() == card_attachments@[i as int].deep());
        if let Some(text) = card_attachments[i].as_str() {
            let id = pointer_or_empty(text, "/id");
            let original = pointer_or_empty(text, "/image/original");
            if id.len() != 0 && original.len() != 0 {
                let title = pointer_or_empty(text, "/image/title");
                let title = replace_char_exec(title.as_slice(), '\n', ' ');
                m.insert(
                    string_of(id.as_slice()),
                    string_of(title.as_slice()),
                    string_of(original.as_slice()),
                );
            }
        }
        i = i + 1;
    }
    assert(cards.take(card_attachments@.len() as int) == cards);
    m
}

// ---------------------------------------------------------------------------
// A streamed card attachment
// ---------------------------------------------------------------------------

/// The Markdown image for a streamed card attachment.
pub open spec fn card_markdown(card: JsonV) -> Option<Seq<char>> {
    match card.get("jsonData"@) {
        Some(j) => match j.as_str() {
            Some(raw) => {
                let text = trim(raw);
                match json_pointer_str(text, "/image/original"@) {
                    Some(original) => if original.len() == 0 {
                        None
                    } else {
                        let title = trim(
                            replace_char(
                                unwrap_or(json_pointer_str(text, "/image/title"@), "image"@),
                                '\n',
                                ' ',
                            ),
                        );
                        if title.len() == 0 {
                            Some("![image]("@ + original + ")\n"@)
                        } else {
                            Some("!["@ + title + "]("@ + original + ")\n"@)
                        }
                    },
                    None => None,
                }
            },
            None => None,
        },
        None => None,
    }
}

/// The Markdown image for a streamed card attachment, `None` when it holds
/// no image.
pub fn parse_card_attachment(card: &Json) -> (r: Option<String>)
    ensures
        r matches Some(s) ==> card_markdown(card.deep()) == Some(s@),
        r is None ==> card_markdown(card.deep()) is None,
{
    let json_data = match card.get("jsonData") {
        Some(j) => j,
        None => return None,
    };
    let raw = match json_data.as_str() {
        Some(s) => s,
        None => return None,
    };
    let text = string_of(trim_exec(chars_of(raw).as_slice()).as_slice());
    let original = match json_str_at(text.as_str(), "/image/original") {
        Some(o) => o,
        None => return None,
    };
    if original.as_str().is_empty() {
        return None;
    }
    let title_raw = match json_str_at(text.as_str(), "/image/title") {
        Some(t) => chars_of(t.as_str()),
        None => chars_of("image"),
    };
    let title = trim_exec(replace_char_exec(title_raw.as_slice(), '\n', ' ').as_slice());
    let mut out: Vec<char> = Vec::new();
    if title.len() == 0 {
        extend_str(&mut out, "![image](");
    } else {
        extend_str(&mut out, "![");
        extend(&mut out, title.as_slice());
        extend_str(&mut out, "](");
    }
    extend_str(&mut out, original.as_str());
    extend_str(&mut out, ")\n");
    Some(string_of(out.as_slice()))
}

// ---------------------------------------------------------------------------
// Render tags
// ---------------------------------------------------------------------------

/// The number of `<` characters in `s`.
pub open spec fn count_lt(s: Seq<char>) -> nat
    decreases s.len(),
{
    if s.len() == 0 {
        0
    } else {
        count_lt(s.drop_last()) + if s.last() == '<' { 1nat } else { 0nat }
    }
}

pub open spec fn no_lt(s: Seq<char>) -> bool {
    forall|i: int| 0 <= i < s.len() ==> #[trigger] s[i] != '<'
}

proof fn lemma_unsafe_entry(e: Seq<(Seq<char>, Seq<char>, Seq<char>)>, k: int)
    requires
        0 <= k < e.len(),
        !(no_lt(e[k].1) && no_lt(e[k].2)),
    ensures
        !entries_safe(e),
{
}

fn no_lt_exec(s: &[char]) -> (b: bool)
    ensures
        b == no_lt(s@),
{
    let mut i: usize = 0;
    while i < s.len()
        invariant
            i <= s@.len(),
            forall|j: int| 0 <= j < i ==> #[trigger] s@[j] != '<',
        decreases s@.len() - i,
    {
        if s[i] == '<' {
            return false;
        }
        i = i + 1;
    }
    true
}

proof fn lemma_count_lt_add(a: Seq<char>, b: Seq<char>)
    ensures
        count_lt(a + b) == count_lt(a) + count_lt(b),
    decreases b.len(),
{
    if b.len() == 0 {
        assert(a + b =~= a);
    } else {
        lemma_count_lt_add(a, b.drop_last());
        assert((a + b).drop_last() =~= a + b.drop_last());
    }
}

proof fn lemma_count_lt_none(s: Seq<char>)
    requires
        no_lt(s),
    ensures
        count_lt(s) == 0,
    decreases s.len(),
{
    if s.len() > 0 {
        assert(no_lt(s.drop_last()));
        lemma_count_lt_none(s.drop_last());
    }
}

proof fn lemma_count_lt_first(s: Seq<char>)
    requires
        s.len() > 0,
        s[0] == '<',
    ensures
        count_lt(s) >= 1,
{
    lemma_count_lt_add(s.take(1), s.skip(1));
    assert(s.take(1) + s.skip(1) =~= s);
    assert(s.take(1).drop_last() =~= Seq::<char>::empty());
}

/// The Markdown that stands for a render tag naming `id`.
pub open spec fn render_replacement(e: Seq<(Seq<char>, Seq<char>, Seq<char>)>, id: Option<Seq<char>>) -> Seq<char> {
    match id {
        Some(i) => match lookup_entry(e, i) {
            Some((title, url)) => {
                let t = if trim(title).len() == 0 {
                    "image"@
                } else {
                    trim(title)
                };
                "!["@ + t + "]("@ + url + ")"@
            },
            None => Seq::empty(),
        },
        None => Seq::empty(),
    }
}

/// Where the render tag starting at `start` ends; `None` when it has no end.
pub open spec fn render_end(s: Seq<char>, start: int) -> Option<int> {
    let seg = s.skip(start);
    match find(seg, "</grok:render>"@) {
        Some(c) => Some(start + c + "</grok:render>"@.len()),
        None => match find(seg, "/>"@) {
            Some(c) => Some(start + c + 2),
            None => None,
        },
    }
}

/// One rewriting step: the first render tag replaced, or `None` when there is
/// no complete tag left.
pub open spec fn render_step(s: Seq<char>, e: Seq<(Seq<char>, Seq<char>, Seq<char>)>) -> Option<Seq<char>> {
    match find(s, "<grok:render"@) {
        None => None,
        Some(start) => match render_end(s, start) {
            None => None,
            Some(end) => Some(
                s.take(start) + render_replacement(e, attr_value(s.skip(start), "card_id"@))
                    + s.skip(end),
            ),
        },
    }
}

/// `s` after at most `fuel` rewriting steps: `Some` of the text once no
/// complete tag is left, `None` when the steps run out before that.
pub open spec fn render_within(
    s: Seq<char>,
    e: Seq<(Seq<char>, Seq<char>, Seq<char>)>,
    fuel: nat,
) -> Option<Seq<char>>
    decreases fuel,
{
    if fuel == 0 {
        None
    } else {
        match render_step(s, e) {
            None => Some(s),
            Some(t) => render_within(t, e, (fuel - 1) as nat),
        }
    }
}

/// Rewriting the render tags of `s` one after the other comes to an end:
/// after finitely many steps no complete tag is left.
pub open spec fn render_ends(s: Seq<char>, e: Seq<(Seq<char>, Seq<char>, Seq<char>)>) -> bool {
    exists|n: nat| #[trigger] render_within(s, e, n) is Some
}

/// `s` with its render tags rewritten one after the other until none is
/// left complete (meaningful where that comes to an end).
pub open spec fn render_cards(s: Seq<char>, e: Seq<(Seq<char>, Seq<char>, Seq<char>)>) -> Seq<char> {
    render_within(s, e, choose|n: nat| #[trigger] render_within(s, e, n) is Some).unwrap()
}

/// More steps than enough change nothing.
pub proof fn lemma_render_within_more(
    s: Seq<char>,
    e: Seq<(Seq<char>, Seq<char>, Seq<char>)>,
    n: nat,
    m: nat,
)
    requires
        render_within(s, e, n) is Some,
        n <= m,
    ensures
        render_within(s, e, m) == render_within(s, e, n),
    decreases n,
{
    match render_step(s, e) {
        None => {},
        Some(t) => {
            lemma_render_within_more(t, e, (n - 1) as nat, (m - 1) as nat);
        },
    }
}

/// The text that comes out of the rewriting, given any number of steps
/// that is enough.
proof fn lemma_render_cards_is(s: Seq<char>, e: Seq<(Seq<char>, Seq<char>, Seq<char>)>, n: nat)
    requires
        render_within(s, e, n) is Some,
    ensures
        render_ends(s, e),
        render_cards(s, e) == render_within(s, e, n).unwrap(),
{
    let k = choose|k: nat| #[trigger] render_within(s, e, k) is Some;
    if k <= n {
        lemma_render_within_more(s, e, k, n);
    } else {
        lemma_render_within_more(s, e, n, k);
    }
}

/// What the rewriting leaves has no complete tag.
proof fn lemma_render_within_done(s: Seq<char>, e: Seq<(Seq<char>, Seq<char>, Seq<char>)>, n: nat)
    requires
        render_within(s, e, n) is Some,
    ensures
        render_step(render_within(s, e, n).unwrap(), e) is None,
    decreases n,
{
    match render_step(s, e) {
        None => {},
        Some(t) => {
            lemma_render_within_done(t, e, (n - 1) as nat);
        },
    }
}

fn render_replacement_exec(map: &CardMap, id: Option<Vec<char>>) -> (r: Vec<char>)
    ensures
        r@ == render_replacement(map.entries_view(), match id {
            Some(v) => Some(v@),
            None => None,
        }),
{
    let mut out: Vec<char> = Vec::new();
    if let Some(i) = id {
        if let Some((title, url)) = map.get(i.as_slice()) {
            let t = trim_exec(title.as_slice());
            extend_str(&mut out, "![");
            if t.len() == 0 {
                extend_str(&mut out, "image");
            } else {
                extend(&mut out, t.as_slice());
            }
            extend_str(&mut out, "](");
            extend(&mut out, url.as_slice());
            extend_str(&mut out, ")");
        }
    }
    out
}

proof fn lemma_replacement_no_lt(e: Seq<(Seq<char>, Seq<char>, Seq<char>)>, id: Option<Seq<char>>)
    requires
        entries_safe(e),
    ensures
        no_lt(render_replacement(e, id)),
{
    reveal_strlit("![");
    reveal_strlit("](");
    reveal_strlit(")");
    reveal_strlit("image");
    if let Some(i) = id {
        if let Some((title, url)) = lookup_entry(e, i) {
            lemma_lookup_in_entries(e, i);
            let k = choose|k: int|
                0 <= k < e.len() && e[k].0 == i
                    && e[k].1 == title && e[k].2 == url;
            assert(no_lt(title) && no_lt(url));
            lemma_trim_sub(title);
            let t = if trim(title).len() == 0 {
                "image"@
            } else {
                trim(title)
            };
            let r = "!["@ + t + "]("@ + url + ")"@;
            assert forall|j: int| 0 <= j < r.len() implies #[trigger] r[j] != '<' by {
                if j < 2 {
                } else if j < 2 + t.len() {
                    assert(r[j] == t[j - 2]);
                } else if j < 4 + t.len() {
                } else if j < 4 + t.len() + url.len() {
                    assert(r[j] == url[j - 4 - t.len()]);
                } else {
                }
            }
        }
    }
}

proof fn lemma_lookup_in_entries(e: Seq<(Seq<char>, Seq<char>, Seq<char>)>, i: Seq<char>)
    requires
        lookup_entry(e, i) is Some,
    ensures
        exists|k: int|
            0 <= k < e.len() && e[k].0 == i
                && e[k].1 == lookup_entry(e, i).unwrap().0 && e[k].2
                == lookup_entry(e, i).unwrap().1,
{
    lemma_last_entry_in(e, i, e.len() as int);
}

proof fn lemma_last_entry_in(e: Seq<(Seq<char>, Seq<char>, Seq<char>)>, id: Seq<char>, n: int)
    requires
        last_entry(e, id, n) is Some,
    ensures
        exists|k: int|
            0 <= k < e.len() && e[k].0 == id && e[k].1 == last_entry(e, id, n).unwrap().0 && e[k].2
                == last_entry(e, id, n).unwrap().1,
    decreases n,
{
    if e[n - 1].0 == id {
        assert(e[n - 1].0 == id);
    } else {
        lemma_last_entry_in(e, id, n - 1);
    }
}

/// Trimming keeps a `<`-free text `<`-free.
proof fn lemma_trim_sub(s: Seq<char>)
    requires
        no_lt(s),
    ensures
        no_lt(trim(s)),
{
    crate::text::lemma_trim_start_shape(s);
    let k = choose|k: int|
        0 <= k <= s.len() && crate::text::trim_start(s) == s.skip(k) && crate::text::all_ws(
            s.take(k),
        ) && (k < s.len() ==> !crate::text::is_ws(s[k]));
    let a = crate::text::trim_start(s);
    assert(no_lt(a)) by {
        assert forall|j: int| 0 <= j < a.len() implies #[trigger] a[j] != '<' by {
            assert(a[j] == s[j + k]);
        }
    }
    lemma_trim_end_prefix(a);
}

proof fn lemma_trim_end_prefix(a: Seq<char>)
    requires
        no_lt(a),
    ensures
        no_lt(crate::text::trim_end(a)),
    decreases a.len(),
{
    if a.len() > 0 && crate::text::is_ws(a.last()) {
        assert(no_lt(a.drop_last())) by {
            assert forall|j: int| 0 <= j < a.drop_last().len() implies #[trigger] a.drop_last()[j]
                != '<' by {
                assert(a.drop_last()[j] == a[j]);
            }
        }
        lemma_trim_end_prefix(a.drop_last());
    }
}

/// Replacing a stretch that starts with `<` by a `<`-free text lowers the
/// number of `<`.
proof fn lemma_step_shrinks(s: Seq<char>, start: int, end: int, repl: Seq<char>, next: Seq<char>)
    requires
        0 <= start < end <= s.len(),
        s[start] == '<',
        no_lt(repl),
        next == s.take(start) + repl + s.skip(end),
    ensures
        count_lt(next) < count_lt(s),
{
    let pre = s.take(start);
    let mid = s.subrange(start, end);
    let post = s.skip(end);
    assert(s =~= pre + mid + post);
    lemma_count_lt_add(pre + mid, post);
    lemma_count_lt_add(pre, mid);
    lemma_count_lt_add(pre + repl, post);
    lemma_count_lt_add(pre, repl);
    lemma_count_lt_none(repl);
    assert(mid[0] == s[start]);
    lemma_count_lt_first(mid);
}

/// The render tags of `content` rewritten into Markdown images of the cards
/// they name; a tag naming no known card is removed. The rewriting goes on
/// while a complete tag is left, so it is asked for only where that comes
/// to an end (a title or link may itself hold a tag).
pub fn replace_render_cards(content: &str, card_map: &CardMap) -> (r: String)
    requires
        render_ends(content@, card_map.entries_view()),
    ensures
        r@ == render_cards(content@, card_map.entries_view()),
{
    let ghost e = card_map.entries_view();
    let ghost n0: nat = choose|n: nat| #[trigger] render_within(content@, e, n) is Some;
    let ghost mut fuel: nat = n0;
    let open = chars_of("<grok:render");
    let close = chars_of("</grok:render>");
    let selfclose = chars_of("/>");
    let mut result = chars_of(content);
    proof {
        reveal_strlit("<grok:render");
        reveal_strlit("</grok:render>");
        reveal_strlit("/>");
    }
    loop
        invariant
            open@ == "<grok:render"@,
            close@ == "</grok:render>"@,
            selfclose@ == "/>"@,
            e == card_map.entries_view(),
            render_within(content@, e, n0) is Some,
            render_within(result@, e, fuel) == render_within(content@, e, n0),
            render_cards(content@, e) == render_within(content@, e, n0).unwrap(),
        decreases fuel,
    {
        let rlen = result.len();
        let start = match find_exec(result.as_slice(), open.as_slice()) {
            Some(s) => s,
            None => {
                assert(render_step(result@, e) is None);
                return string_of(result.as_slice());
            },
        };
        proof {
            lemma_find_from_spec(result@, open@, 0);
        }
        let seg = slice_chars(result.as_slice(), start, rlen);
        assert(seg@ == result@.skip(start as int));
        let card_id = crate::tools::attr_value_chars_pub(seg.as_slice(), "card_id");
        let end_pos = match find_in_suffix(result.as_slice(), close.as_slice(), start) {
            Some(c) => start + c + close.len(),
            None => match find_in_suffix(result.as_slice(), selfclose.as_slice(), start) {
                Some(c) => start + c + selfclose.len(),
                None => {
                    proof {
                        reveal_strlit("</grok:render>");
                        reveal_strlit("/>");
                        assert(render_end(result@, start as int) is None);
                        assert(render_step(result@, e) is None);
                    }
                    return string_of(result.as_slice());
                },
            },
        };
        let ghost id_view: Option<Seq<char>> = match &card_id {
            Some(v) => Some(v@),
            None => None,
        };
        assert(id_view == attr_value(result@.skip(start as int), "card_id"@));
        let repl = render_replacement_exec(card_map, card_id);
        let ghost old_result = result@;
        let mut next: Vec<char> = slice_chars(result.as_slice(), 0, start);
        extend(&mut next, repl.as_slice());
        extend(&mut next, slice_chars(result.as_slice(), end_pos, rlen).as_slice());
        proof {
            assert(old_result.subrange(end_pos as int, old_result.len() as int) == old_result.skip(
                end_pos as int,
            ));
            reveal_strlit("</grok:render>");
            reveal_strlit("/>");
            assert(repl@ == render_replacement(card_map.entries_view(), id_view));
            assert(render_end(old_result, start as int) == Some(end_pos as int));
            assert(next@ =~= old_result.take(start as int) + repl@ + old_result.skip(end_pos as int));
            assert(render_step(old_result, card_map.entries_view()) == Some(next@));
        }
        proof {
            fuel = (fuel - 1) as nat;
        }
        result = next;
    }
}

/// With a card map whose titles and links hold no `<`, the rewriting comes
/// to an end and no complete render tag is left in the result.
pub proof fn lemma_render_cards_complete(s: Seq<char>, e: Seq<(Seq<char>, Seq<char>, Seq<char>)>)
    requires
        entries_safe(e),
    ensures
        render_ends(s, e),
        render_step(render_cards(s, e), e) is None,
{
    lemma_render_safe_ends(s, e);
    let n = count_lt(s) + 1;
    lemma_render_cards_is(s, e, n);
    lemma_render_within_done(s, e, n);
}

/// With such a card map, one step more than the number of `<` is enough.
proof fn lemma_render_safe_ends(s: Seq<char>, e: Seq<(Seq<char>, Seq<char>, Seq<char>)>)
    requires
        entries_safe(e),
    ensures
        render_within(s, e, count_lt(s) + 1) is Some,
    decreases count_lt(s),
{
    match render_step(s, e) {
        None => {},
        Some(t) => {
            lemma_render_step_shrinks(s, e);
            lemma_render_safe_ends(t, e);
            lemma_render_within_more(t, e, count_lt(t) + 1, count_lt(s));
        },
    }
}

/// A rewrite with a card map whose titles and links hold no `<` lowers the
/// number of `<`.
proof fn lemma_render_step_shrinks(s: Seq<char>, e: Seq<(Seq<char>, Seq<char>, Seq<char>)>)
    requires
        entries_safe(e),
        render_step(s, e) is Some,
    ensures
        count_lt(render_step(s, e).unwrap()) < count_lt(s),
{
    reveal_strlit("<grok:render");
    reveal_strlit("</grok:render>");
    reveal_strlit("/>");
    let start = find(s, "<grok:render"@).unwrap();
    crate::text::lemma_find_from_spec(s, "<grok:render"@, 0);
    let end = render_end(s, start).unwrap();
    let seg = s.skip(start);
    let id = attr_value(seg, "card_id"@);
    lemma_replacement_no_lt(e, id);
    assert(occurs_at(s, "<grok:render"@, start));
    assert(s.subrange(start, start + "<grok:render"@.len())[0] == "<grok:render"@[0]);
    assert(s[start] == '<');
    match find(seg, "</grok:render>"@) {
        Some(c) => {
            crate::text::lemma_find_from_spec(seg, "</grok:render>"@, 0);
        },
        None => {
            crate::text::lemma_find_from_spec(seg, "/>"@, 0);
        },
    }
    lemma_step_shrinks(s, start, end, render_replacement(e, id), render_step(s, e).unwrap());
}

} // verus!
