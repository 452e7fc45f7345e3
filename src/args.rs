//! What a subprocess is told of a chat event: a list of arguments, given on
//! its command line when it starts and as a line on its input afterwards.
use vstd::prelude::*;

use crate::telegram::{CallbackQuery, Document, Message, PhotoSize};
use crate::text::{
    chars_of, clean_file_name, collapse_markers, is_file_name_char, is_white_space, safe_text,
};

verus! {

/// An event of the chat service for the actor of one conversation.
#[derive(Debug, PartialEq, Eq)]
pub enum HandleEvent {
    /// A message of the user.
    Message(Message),
    /// The user tapped an inline keyboard button.
    Callback(CallbackQuery),
}

/// The essence (type and subtype, lower case, without parameters) of a media
/// type, or `None` where `s` is not a media type.
pub uninterp spec fn mime_essence(s: Seq<char>) -> Option<Seq<char>>;

/// Relies on the `mime` crate: `Mime`'s `FromStr` parses the media type and
/// `Mime::essence_str` gives its essence; a parse error gives `None`.
#[verifier::external_body]
fn parse_mime_essence(s: &str) -> (r: Option<String>)
    ensures
        match r {
            Some(e) => mime_essence(s@) == Some(e@),
            None => mime_essence(s@) is None,
        },
{
    s.parse::<mime::Mime>().ok().map(|m| m.essence_str().to_string())
}

/// The views of a list of texts.
pub open spec fn texts_view(v: Seq<String>) -> Seq<Seq<char>> {
    v.map_values(|s: String| s@)
}

/// The decimal digit for `d`.
pub open spec fn digit(d: nat) -> char {
    ((48 + d) as u8) as char
}

/// The decimal notation of `n`.
pub open spec fn decimal(n: nat) -> Seq<char>
    decreases n,
{
    if n < 10 {
        seq![digit(n)]
    } else {
        decimal(n / 10).push(digit(n % 10))
    }
}

/// Writes `n` in decimal notation.
pub fn decimal_text(n: u32) -> (r: String)
    ensures
        r@ == decimal(n as nat),
    decreases n,
{
    let d: u8 = (n % 10) as u8;
    let c = (48u8 + d) as char;
    if n < 10 {
        let mut r = String::new();
        r.push(c);
        assert(r@ =~= seq![digit(n as nat)]);
        r
    } else {
        let mut r = decimal_text(n / 10);
        r.push(c);
        r
    }
}

/// The whitespace-separated words of `s` from position `i` on, where `word`
/// was gathered before `i`.
pub open spec fn words_from(s: Seq<char>, i: int, word: Seq<char>) -> Seq<Seq<char>>
    decreases s.len() - i,
{
    if i >= s.len() || i < 0 {
        if word.len() > 0 {
            seq![word]
        } else {
            Seq::empty()
        }
    } else if is_white_space(s[i]) {
        (if word.len() > 0 {
            seq![word]
        } else {
            Seq::empty()
        }) + words_from(s, i + 1, Seq::empty())
    } else {
        words_from(s, i + 1, word.push(s[i]))
    }
}

/// The whitespace-separated words of `s`.
pub open spec fn words(s: Seq<char>) -> Seq<Seq<char>> {
    words_from(s, 0, Seq::empty())
}

/// Cuts `s` into its whitespace-separated words.
pub fn split_words(s: &str) -> (r: Vec<String>)
    ensures
        texts_view(r@) == words(s@),
{
    let cs = chars_of(s);
    let mut r: Vec<String> = Vec::new();
    let mut word = String::new();
    let mut i: usize = 0;
    while i < cs.len()
        invariant
            cs@ == s@,
            i <= cs@.len(),
            texts_view(r@) + words_from(s@, i as int, word@) == words(s@),
        decreases cs@.len() - i,
    {
        let c = cs[i];
        let ghost old_word = word@;
        assert(cs@[i as int] == s@[i as int]);
        if c.is_whitespace() {
            proof {
                if word@.len() == 0 {
                    assert(words_from(s@, i as int, word@) =~= words_from(s@, i + 1, Seq::empty()));
                }
            }
            if !word.as_str().is_empty() {
                let ghost before = r@;
                let w = word;
                r.push(w);
                word = String::new();
                proof {
                    assert(texts_view(r@) =~= texts_view(before) + seq![w@]);
                    assert(word@ =~= Seq::<char>::empty());
                    assert(texts_view(r@) + words_from(s@, i + 1, word@) =~= texts_view(before) + (
                    seq![w@] + words_from(s@, i + 1, Seq::empty())));
                }
            } else {
                assert(word@ =~= Seq::<char>::empty());
            }
        } else {
            word.push(c);
            assert(words_from(s@, i as int, old_word) == words_from(s@, i + 1, word@));
        }
        i = i + 1;
    }
    if !word.as_str().is_empty() {
        let ghost before = r@;
        let w = word;
        r.push(w);
        assert(texts_view(r@) =~= texts_view(before) + seq![w@]);
    } else {
        assert(words_from(s@, i as int, word@) =~= Seq::empty());
    }
    assert(texts_view(r@) =~= words(s@));
    r
}

/// The area of a photo resolution, in pixels.
pub open spec fn area(p: PhotoSize) -> int {
    p.width as int * p.height as int
}

/// `sorted` with `p` inserted after every element whose area is not larger.
pub open spec fn insert_by_area(sorted: Seq<PhotoSize>, p: PhotoSize) -> Seq<PhotoSize>
    decreases sorted.len(),
{
    if sorted.len() == 0 {
        seq![p]
    } else if area(sorted.last()) <= area(p) {
        sorted.push(p)
    } else {
        insert_by_area(sorted.drop_last(), p).push(sorted.last())
    }
}

/// The resolutions in ascending order of area; resolutions of equal area
/// keep their order.
pub open spec fn sort_by_area(ps: Seq<PhotoSize>) -> Seq<PhotoSize>
    decreases ps.len(),
{
    if ps.len() == 0 {
        Seq::empty()
    } else {
        insert_by_area(sort_by_area(ps.drop_last()), ps.last())
    }
}

/// Whether the resolutions ascend by area.
pub open spec fn ascends_by_area(s: Seq<PhotoSize>) -> bool {
    forall|i: int, j: int| 0 <= i < j < s.len() ==> area(s[i]) <= area(s[j])
}

proof fn lemma_insert_by_area(sorted: Seq<PhotoSize>, p: PhotoSize)
    requires
        ascends_by_area(sorted),
    ensures
        ascends_by_area(insert_by_area(sorted, p)),
        insert_by_area(sorted, p).to_multiset() == sorted.to_multiset().insert(p),
    decreases sorted.len(),
{
    broadcast use vstd::seq_lib::group_to_multiset_ensures;

    if sorted.len() == 0 {
        assert(seq![p] =~= Seq::<PhotoSize>::empty().push(p));
    } else if area(sorted.last()) <= area(p) {
    } else {
        let front = sorted.drop_last();
        assert(ascends_by_area(front)) by {
            assert forall|i: int, j: int| 0 <= i < j < front.len() implies area(front[i]) <= area(
                front[j],
            ) by {
                assert(front[i] == sorted[i] && front[j] == sorted[j]);
            }
        }
        lemma_insert_by_area(front, p);
        let ins = insert_by_area(front, p);
        let r = ins.push(sorted.last());
        assert forall|i: int, j: int| 0 <= i < j < r.len() implies area(r[i]) <= area(r[j]) by {
            if j == r.len() - 1 {
                assert(r[i] == ins[i] && r[j] == sorted.last());
                assert(ins.to_multiset().count(ins[i]) > 0);
                if ins[i] != p {
                    assert(front.to_multiset().count(ins[i]) > 0);
                    let m = choose|m: int| 0 <= m < front.len() && front[m] == ins[i];
                    assert(sorted[m] == front[m]);
                    assert(area(sorted[m]) <= area(sorted[sorted.len() - 1]));
                }
            } else {
                assert(r[i] == ins[i] && r[j] == ins[j]);
            }
        }
        assert(sorted =~= front.push(sorted.last()));
        assert(r.to_multiset() =~= sorted.to_multiset().insert(p));
    }
}

/// The order given to a photo's resolutions ascends by area and holds each
/// resolution as often as the photo does.
pub proof fn sort_by_area_law(ps: Seq<PhotoSize>)
    ensures
        ascends_by_area(sort_by_area(ps)),
        sort_by_area(ps).to_multiset() == ps.to_multiset(),
    decreases ps.len(),
{
    broadcast use vstd::seq_lib::group_to_multiset_ensures;

    if ps.len() > 0 {
        sort_by_area_law(ps.drop_last());
        lemma_insert_by_area(sort_by_area(ps.drop_last()), ps.last());
        assert(ps =~= ps.drop_last().push(ps.last()));
    }
}

/// For each resolution: its file identifier, width and height.
pub open spec fn resolution_args(ps: Seq<PhotoSize>) -> Seq<Seq<char>>
    decreases ps.len(),
{
    if ps.len() == 0 {
        Seq::empty()
    } else {
        resolution_args(ps.drop_last()) + seq![
            ps.last().file_id@,
            decimal(ps.last().width as nat),
            decimal(ps.last().height as nat),
        ]
    }
}

/// The arguments that tell of a file sent by the user.
pub open spec fn document_args(d: Document) -> Seq<Seq<char>> {
    let head = seq!["//tg-document"@, "--file-id"@, d.file_id@.filter(|c: char| is_file_name_char(c))];
    let name = match d.unsafe_file_name {
        Some(n) if n@.len() > 0 => seq!["--file-name"@, n@.filter(|c: char| is_file_name_char(c))],
        _ => Seq::empty(),
    };
    let kind = match d.unsafe_mime_type {
        Some(t) if t@.len() > 0 => match mime_essence(t@) {
            Some(e) => seq!["--mime-type"@, e],
            None => Seq::empty(),
        },
        _ => Seq::empty(),
    };
    head + name + kind
}

/// The arguments that tell a subprocess of an event. With `split_text`, the
/// words of a text are separate arguments; otherwise the text is one.
pub open spec fn event_args(e: HandleEvent, split_text: bool) -> Seq<Seq<char>> {
    match e {
        HandleEvent::Callback(q) => seq!["//tg-callback"@, q.data@],
        HandleEvent::Message(m) => match m.text {
            Some(t) => if split_text {
                words(collapse_markers(t@))
            } else {
                seq![collapse_markers(t@)]
            },
            None => match m.document {
                Some(d) => document_args(d),
                None => match m.photo {
                    Some(ps) => seq!["//tg-photo"@] + resolution_args(sort_by_area(ps@)),
                    None => seq!["//tg-unknown"@],
                },
            },
        },
    }
}

fn photo_area(p: &PhotoSize) -> (r: u64)
    ensures
        r == area(*p),
{
    let w = p.width as u64;
    let h = p.height as u64;
    assert(w * h <= 0xffff_ffffu64 * 0xffff_ffffu64) by (nonlinear_arith)
        requires
            w <= 0xffff_ffffu64,
            h <= 0xffff_ffffu64,
    ;
    w * h
}

/// The positions of the resolutions in `ps`, in ascending order of area.
fn order_by_area(ps: &Vec<PhotoSize>) -> (r: Vec<usize>)
    ensures
        forall|j: int| 0 <= j < r@.len() ==> r@[j] < ps@.len(),
        r@.map_values(|i: usize| ps@[i as int]) == sort_by_area(ps@),
{
    let mut r: Vec<usize> = Vec::new();
    let mut k: usize = 0;
    while k < ps.len()
        invariant
            k <= ps@.len(),
            forall|j: int| 0 <= j < r@.len() ==> r@[j] < k,
            r@.map_values(|i: usize| ps@[i as int]) == sort_by_area(ps@.take(k as int)),
        decreases ps@.len() - k,
    {
        let a = photo_area(&ps[k]);
        let mut j: usize = r.len();
        proof {
            let s = r@.map_values(|i: usize| ps@[i as int]);
            assert(s.take(j as int) =~= s);
            assert(insert_by_area(s, ps@[k as int]) =~= insert_by_area(s.take(j as int), ps@[k as int])
                + s.skip(j as int));
        }
        while j > 0 && photo_area(&ps[r[j - 1]]) > a
            invariant
                j <= r@.len(),
                forall|x: int| 0 <= x < r@.len() ==> r@[x] < k,
                k < ps@.len(),
                a == area(ps@[k as int]),
                insert_by_area(r@.map_values(|i: usize| ps@[i as int]), ps@[k as int])
                    == insert_by_area(
                    r@.map_values(|i: usize| ps@[i as int]).take(j as int),
                    ps@[k as int],
                ) + r@.map_values(|i: usize| ps@[i as int]).skip(j as int),
            decreases j,
        {
            proof {
                let s = r@.map_values(|i: usize| ps@[i as int]);
                let t = s.take(j as int);
                assert(t.last() == s[j - 1]);
                assert(t.drop_last() =~= s.take(j - 1));
                assert(s.skip(j - 1) =~= seq![s[j - 1]] + s.skip(j as int));
                assert(insert_by_area(t, ps@[k as int]) == insert_by_area(
                    s.take(j - 1),
                    ps@[k as int],
                ).push(s[j - 1]));
                assert(insert_by_area(s.take(j - 1), ps@[k as int]).push(s[j - 1]) + s.skip(
                    j as int,
                ) =~= insert_by_area(s.take(j - 1), ps@[k as int]) + s.skip(j - 1));
            }
            j = j - 1;
        }
        proof {
            let s = r@.map_values(|i: usize| ps@[i as int]);
            let t = s.take(j as int);
            if j > 0 {
                assert(t.last() == s[j - 1]);
                assert(insert_by_area(t, ps@[k as int]) == t.push(ps@[k as int]));
            } else {
                assert(t.len() == 0);
            }
            assert(ps@.take(k + 1).drop_last() =~= ps@.take(k as int));
        }
        let ghost before = r@;
        r.insert(j, k);
        proof {
            let s = before.map_values(|i: usize| ps@[i as int]);
            assert(r@.map_values(|i: usize| ps@[i as int]) =~= s.take(j as int).push(ps@[k as int])
                + s.skip(j as int));
            assert forall|x: int| 0 <= x < r@.len() implies r@[x] < k + 1 by {
                if x < j {
                    assert(r@[x] == before[x]);
                } else if x > j {
                    assert(r@[x] == before[x - 1]);
                }
            }
        }
        k = k + 1;
    }
    assert(ps@.take(k as int) =~= ps@);
    r
}

/// The arguments that tell a subprocess of an event. With `split_text_args`,
/// the words of a text are separate arguments (for a command line); otherwise
/// the text is one argument. Text is first defanged so that it cannot pass
/// for a directive; a file name is reduced to safe characters and a media type
/// to its essence, which is left out where it does not parse.
pub fn event_to_args(message: &HandleEvent, split_text_args: bool) -> (r: Vec<String>)
    ensures
        texts_view(r@) == event_args(*message, split_text_args),
{
    match message {
        HandleEvent::Callback(q) => {
            let r = vec!["//tg-callback".to_owned(), q.data.clone()];
            assert(texts_view(r@) =~= seq!["//tg-callback"@, q.data@]);
            r
        },
        HandleEvent::Message(m) => {
            if let Some(text) = &m.text {
                let text = safe_text(text.as_str());
                if split_text_args {
                    split_words(text)
                } else {
                    let r = vec![text.to_owned()];
                    assert(texts_view(r@) =~= seq![text@]);
                    r
                }
            } else if let Some(document) = &m.document {
                document_to_args(document)
            } else if let Some(photo_sizes) = &m.photo {
                let order = order_by_area(photo_sizes);
                let mut r: Vec<String> = vec!["//tg-photo".to_owned()];
                let ghost sorted = sort_by_area(photo_sizes@);
                let mut i: usize = 0;
                assert(texts_view(r@) =~= seq!["//tg-photo"@] + resolution_args(sorted.take(0)));
                while i < order.len()
                    invariant
                        i <= order@.len(),
                        forall|j: int| 0 <= j < order@.len() ==> order@[j] < photo_sizes@.len(),
                        order@.map_values(|x: usize| photo_sizes@[x as int]) == sorted,
                        texts_view(r@) == seq!["//tg-photo"@] + resolution_args(
                            sorted.take(i as int),
                        ),
                    decreases order@.len() - i,
                {
                    let p = &photo_sizes[order[i]];
                    assert(sorted[i as int] == *p);
                    let ghost before = r@;
                    r.push(p.file_id.clone());
                    r.push(decimal_text(p.width));
                    r.push(decimal_text(p.height));
                    proof {
                        assert(sorted.take(i + 1).drop_last() =~= sorted.take(i as int));
                        assert(texts_view(r@) =~= texts_view(before) + seq![
                            p.file_id@,
                            decimal(p.width as nat),
                            decimal(p.height as nat),
                        ]);
                    }
                    i = i + 1;
                }
                assert(sorted.take(i as int) =~= sorted);
                r
            } else {
                let r = vec!["//tg-unknown".to_owned()];
                assert(texts_view(r@) =~= seq!["//tg-unknown"@]);
                r
            }
        },
    }
}

fn document_to_args(document: &Document) -> (r: Vec<String>)
    ensures
        texts_view(r@) == document_args(*document),
{
    let mut r: Vec<String> = vec![
        "//tg-document".to_owned(),
        "--file-id".to_owned(),
        clean_file_name(document.file_id.as_str()),
    ];
    let ghost head = texts_view(r@);
    let ghost name_args: Seq<Seq<char>> = Seq::empty();
    match &document.unsafe_file_name {
        Some(name) => {
            if !name.as_str().is_empty() {
                r.push("--file-name".to_owned());
                r.push(clean_file_name(name.as_str()));
                proof {
                    name_args = seq![
                        "--file-name"@,
                        name@.filter(|c: char| is_file_name_char(c)),
                    ];
                }
            }
        },
        None => {},
    }
    assert(texts_view(r@) =~= head + name_args);
    let ghost kind_args: Seq<Seq<char>> = Seq::empty();
    match &document.unsafe_mime_type {
        Some(kind) => {
            if !kind.as_str().is_empty() {
                match parse_mime_essence(kind.as_str()) {
                    Some(essence) => {
                        proof {
                            kind_args = seq!["--mime-type"@, essence@];
                        }
                        r.push("--mime-type".to_owned());
                        r.push(essence);
                    },
                    None => {},
                }
            }
        },
        None => {},
    }
    assert(texts_view(r@) =~= head + name_args + kind_args);
    r
}

/// Space-separated texts.
pub open spec fn joined(args: Seq<Seq<char>>) -> Seq<char>
    decreases args.len(),
{
    if args.len() == 0 {
        Seq::empty()
    } else if args.len() == 1 {
        args[0]
    } else {
        joined(args.drop_last()) + seq![' '] + args.last()
    }
}

/// The line that hands a subprocess the arguments of an event on its input:
/// the arguments separated by spaces, then a newline.
pub fn input_line(args: &Vec<String>) -> (r: String)
    ensures
        r@ == joined(texts_view(args@)) + seq!['\n'],
{
    let mut r = String::new();
    let mut i: usize = 0;
    while i < args.len()
        invariant
            i <= args@.len(),
            r@ == joined(texts_view(args@.take(i as int))),
        decreases args@.len() - i,
    {
        proof {
            assert(texts_view(args@.take(i + 1)).drop_last() =~= texts_view(args@.take(i as int)));
        }
        if i > 0 {
            r.push(' ');
        }
        r.push_str(args[i].as_str());
        i = i + 1;
    }
    assert(args@.take(i as int) =~= args@);
    r.push('\n');
    r
}

/// The line that tells a subprocess where a downloaded file was stored.
pub fn download_report(path: &str) -> (r: String)
    ensures
        r@ == "//tg-file-download "@ + path@ + seq!['\n'],
{
    let mut r = "//tg-file-download ".to_owned();
    r.push_str(path);
    r.push('\n');
    r
}

} // verus!
