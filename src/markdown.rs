use vstd::prelude::*;

use crate::assets::{file_index, find_file, StaticFile};
use crate::config::Config;
use crate::error::Error;
use crate::preload::{http_preload, is_header_text, preload_value};
use crate::svg::{inline_svg, svg_stripped, svg_with_title};
use crate::text::{ends_with, ends_with_str, texts_of};

verus! {

/// An image that a markdown event starts: where it points, and its title.
#[derive(Clone, Debug)]
pub struct ImageRef {
    pub src: String,
    pub title: String,
}

/// One event of a markdown parser, with the image that it starts, if any.
pub struct MdEvent<E> {
    pub event: E,
    pub image: Option<ImageRef>,
}

/// One event of the rewritten stream: an event of the parser, or a
/// fragment of HTML that takes the place of one.
#[derive(Debug)]
pub enum Emitted<E> {
    Event(E),
    Html(String),
}

/// The model of an [`Emitted`] event.
pub enum Out<E> {
    Event(E),
    Html(Seq<char>),
}

impl<E> Emitted<E> {
    pub open spec fn view(&self) -> Out<E> {
        match self {
            Emitted::Event(e) => Out::Event(*e),
            Emitted::Html(s) => Out::Html(s@),
        }
    }
}

/// What becomes of a site-local image.
pub enum ImageAction {
    /// It is replaced by this SVG markup.
    Inline(String),
    /// It stays, and is preloaded with this header value.
    Preload(String),
    /// It stays, with no preload.
    Keep,
}

/// The model of an [`ImageAction`].
pub enum Action {
    Inline(Seq<char>),
    Preload(Seq<char>),
    Keep,
}

impl ImageAction {
    pub open spec fn view(&self) -> Action {
        match self {
            ImageAction::Inline(s) => Action::Inline(s@),
            ImageAction::Preload(s) => Action::Preload(s@),
            ImageAction::Keep => Action::Keep,
        }
    }
}

/// An image source that points into the site itself.
pub open spec fn is_local(src: Seq<char>) -> bool {
    src.len() > 0 && src[0] == '/'
}

/// The image source without its leading slash, decoded from percent
/// encoding, where that is valid UTF-8.
pub uninterp spec fn percent_decoded(s: Seq<char>) -> Option<Seq<char>>;

/// Relies on `percent_encoding::percent_decode` and `decode_utf8`: the
/// decoded text, or nothing where the decoded bytes are not UTF-8.
#[verifier::external_body]
fn percent_decode_utf8(s: &str) -> (r: Option<String>)
    ensures
        match r {
            Some(d) => percent_decoded(s@) == Some(d@),
            None => percent_decoded(s@) is None,
        },
{
    percent_encoding::percent_decode(s.as_bytes()).decode_utf8().ok().map(|d| d.into_owned())
}

/// The action for a local image that is not inlined.
pub open spec fn plain_action(cfg: Config, src: Seq<char>) -> Option<Action> {
    if cfg.disable_preload {
        Some(Action::Keep)
    } else if is_header_text(preload_value(src.drop_first(), "image"@)) {
        Some(Action::Preload(preload_value(src.drop_first(), "image"@)))
    } else {
        None
    }
}

/// Inlining applies to the image: SVG inlining is on and its source ends
/// in `.svg`.
pub open spec fn svg_candidate(cfg: Config, src: Seq<char>) -> bool {
    cfg.enable_inline_svg && ends_with(src, ".svg"@)
}

/// `act` is what a local image with source `src` and title `title`
/// becomes: small SVG files are inlined, the rest kept and, unless
/// preloading is off, preloaded.
pub open spec fn action_fits(
    cfg: Config,
    files: Seq<StaticFile>,
    src: Seq<char>,
    title: Seq<char>,
    act: Action,
) -> bool {
    if svg_candidate(cfg, src) {
        match percent_decoded(src.drop_first()) {
            None => false,
            Some(d) => match file_index(files, d) {
                None => false,
                Some(k) => if files[k].size <= cfg.max_inline_size {
                    files[k].text matches Some(t) && act matches Action::Inline(s) && svg_with_title(
                        svg_stripped(t@),
                        title,
                    ) == Some(s)
                } else {
                    plain_action(cfg, src) == Some(act)
                },
            },
        }
    } else {
        plain_action(cfg, src) == Some(act)
    }
}

/// `e` is an error that a local image with source `src` and title `title`
/// can give: an undecodable source, an absent or non-UTF-8 SVG file, an SVG
/// document without its tag, or a preload hint that is no header value.
pub open spec fn action_error(
    cfg: Config,
    files: Seq<StaticFile>,
    src: Seq<char>,
    title: Seq<char>,
    e: Error,
) -> bool {
    let plain_error = !cfg.disable_preload && !is_header_text(
        preload_value(src.drop_first(), "image"@),
    ) && e == Error::HeaderValue;
    if svg_candidate(cfg, src) {
        match percent_decoded(src.drop_first()) {
            None => e == Error::Utf8,
            Some(d) => match file_index(files, d) {
                None => e is Io,
                Some(k) => if files[k].size <= cfg.max_inline_size {
                    match files[k].text {
                        None => e == Error::Utf8,
                        Some(t) => e == Error::NotFound && svg_with_title(
                            svg_stripped(t@),
                            title,
                        ) is None,
                    }
                } else {
                    plain_error
                },
            },
        }
    } else {
        plain_error
    }
}

/// A local image with source `src` and title `title` can be handled: its
/// SVG file, where it is to be inlined, is found, is text and has its tag,
/// and its preload hint, where it gets one, is a legal header value.
pub open spec fn action_ok(cfg: Config, files: Seq<StaticFile>, src: Seq<char>, title: Seq<char>) -> bool {
    if svg_candidate(cfg, src) {
        match percent_decoded(src.drop_first()) {
            None => false,
            Some(d) => match file_index(files, d) {
                None => false,
                Some(k) => if files[k].size <= cfg.max_inline_size {
                    files[k].text matches Some(t) && svg_with_title(svg_stripped(t@), title) is Some
                } else {
                    plain_action(cfg, src) is Some
                },
            },
        }
    } else {
        plain_action(cfg, src) is Some
    }
}

/// The image, given by its source and title, is a site-local one.
pub open spec fn local_image(image: Option<(Seq<char>, Seq<char>)>) -> bool {
    image matches Some(p) && is_local(p.0)
}

/// The source of an image, given by its source and title.
pub open spec fn image_src(image: Option<(Seq<char>, Seq<char>)>) -> Seq<char> {
    match image {
        Some((src, _)) => src,
        None => seq![],
    }
}

/// The title of an image, given by its source and title.
pub open spec fn image_title(image: Option<(Seq<char>, Seq<char>)>) -> Seq<char> {
    match image {
        Some((_, title)) => title,
        None => seq![],
    }
}

/// Every local image among `images` can be handled.
pub open spec fn images_ok(
    cfg: Config,
    files: Seq<StaticFile>,
    images: Seq<Option<(Seq<char>, Seq<char>)>>,
) -> bool {
    forall|i: int|
        0 <= i < images.len() && local_image(#[trigger] images[i]) ==> action_ok(
            cfg,
            files,
            image_src(images[i]),
            image_title(images[i]),
        )
}

/// `e` is the error of some local image among `images`.
pub open spec fn images_error(
    cfg: Config,
    files: Seq<StaticFile>,
    images: Seq<Option<(Seq<char>, Seq<char>)>>,
    e: Error,
) -> bool {
    exists|i: int|
        0 <= i < images.len() && local_image(#[trigger] images[i]) && action_error(
            cfg,
            files,
            image_src(images[i]),
            image_title(images[i]),
            e,
        )
}

/// The images that events start: for each event, the source and title of
/// its image, if it starts one.
pub open spec fn images_of<E>(events: Seq<MdEvent<E>>) -> Seq<Option<(Seq<char>, Seq<char>)>> {
    events.map_values(
        |e: MdEvent<E>|
            match e.image {
                Some(i) => Some((i.src@, i.title@)),
                None => None,
            },
    )
}

/// Decides what becomes of a site-local image.
pub fn image_action(cfg: &Config, files: &Vec<StaticFile>, src: &str, title: &str) -> (r: Result<
    ImageAction,
    Error,
>)
    requires
        is_local(src@),
    ensures
        match r {
            Ok(a) => action_fits(*cfg, files@, src@, title@, a@),
            Err(e) => action_error(*cfg, files@, src@, title@, e),
        },
        r is Ok <==> action_ok(*cfg, files@, src@, title@),
{
    let n = src.unicode_len();
    let path = src.substring_char(1, n);
    assert(path@ =~= src@.drop_first());
    if cfg.enable_inline_svg && ends_with_str(src, ".svg") {
        let decoded = match percent_decode_utf8(path) {
            Some(d) => d,
            None => return Err(Error::Utf8),
        };
        let k = match find_file(files, decoded.as_str()) {
            Some(k) => k,
            None => {
                let mut m = "file not found: ".to_owned();
                m.append(decoded.as_str());
                return Err(Error::Io(m));
            },
        };
        if files[k].size <= cfg.max_inline_size {
            let text = match &files[k].text {
                Some(t) => t,
                None => return Err(Error::Utf8),
            };
            let svg = inline_svg(text.as_str(), title)?;
            return Ok(ImageAction::Inline(svg));
        }
    }
    if cfg.disable_preload {
        Ok(ImageAction::Keep)
    } else {
        let hint = http_preload(path, "image")?;
        Ok(ImageAction::Preload(hint))
    }
}

/// The state that the rewriting pass carries from one event to the next.
pub enum SvgState {
    /// No replacement waits.
    Idle,
    /// This SVG markup takes the place of the next event that is not a
    /// local image.
    SvgPending(String),
}

impl SvgState {
    pub open spec fn view(&self) -> Option<Seq<char>> {
        match self {
            SvgState::Idle => None,
            SvgState::SvgPending(s) => Some(s@),
        }
    }
}

/// The state of the rewriting pass after some events.
pub struct PassState<E> {
    pub out: Seq<Out<E>>,
    pub hints: Seq<Seq<char>>,
    /// SVG markup that takes the place of the next event that is not a
    /// local image.
    pub pending: Option<Seq<char>>,
}

/// One step of the rewriting pass over `event`, where `act` is the action
/// of the local image that it starts, if it starts one.
pub open spec fn step<E>(st: PassState<E>, event: E, act: Option<Action>) -> PassState<E> {
    match act {
        Some(Action::Inline(svg)) => PassState { out: st.out, hints: st.hints, pending: Some(svg) },
        Some(Action::Preload(h)) => PassState {
            out: st.out.push(Out::Event(event)),
            hints: st.hints.push(h),
            pending: st.pending,
        },
        Some(Action::Keep) => PassState {
            out: st.out.push(Out::Event(event)),
            hints: st.hints,
            pending: st.pending,
        },
        None => match st.pending {
            Some(svg) => PassState { out: st.out.push(Out::Html(svg)), hints: st.hints, pending: None },
            None => PassState { out: st.out.push(Out::Event(event)), hints: st.hints, pending: None },
        },
    }
}

/// The rewriting pass over the first `n` events.
pub open spec fn pass<E>(events: Seq<MdEvent<E>>, acts: Seq<Option<Action>>, n: nat) -> PassState<
    E,
>
    decreases n,
{
    if n == 0 {
        PassState { out: seq![], hints: seq![], pending: None }
    } else {
        step(pass(events, acts, (n - 1) as nat), events[n - 1].event, acts[n - 1])
    }
}

/// The event starts a site-local image.
pub open spec fn starts_local_image<E>(ev: MdEvent<E>) -> bool {
    ev.image matches Some(img) && is_local(img.src@)
}

/// `acts` gives, for each of the events, the action of the local image
/// that it starts, and nothing for the other events.
pub open spec fn actions_fit<E>(
    cfg: Config,
    files: Seq<StaticFile>,
    events: Seq<MdEvent<E>>,
    acts: Seq<Option<Action>>,
) -> bool {
    &&& acts.len() == events.len()
    &&& forall|i: int|
        0 <= i < events.len() ==> match #[trigger] acts[i] {
            None => !starts_local_image(events[i]),
            Some(a) => starts_local_image(events[i]) && action_fits(
                cfg,
                files,
                events[i].image->0.src@,
                events[i].image->0.title@,
                a,
            ),
        }
}

/// The views of rewritten events.
pub open spec fn outs_view<E>(out: Seq<Emitted<E>>) -> Seq<Out<E>> {
    out.map_values(|e: Emitted<E>| e.view())
}

/// `v` in reverse order.
fn reversed<T>(v: Vec<T>) -> (r: Vec<T>)
    ensures
        r@.len() == v@.len(),
        forall|i: int| 0 <= i < v@.len() ==> r@[i] == v@[v@.len() - 1 - i],
{
    let ghost orig = v@;
    let mut v = v;
    let mut r: Vec<T> = Vec::new();
    while v.len() > 0
        invariant
            r@.len() + v@.len() == orig.len(),
            v@ == orig.subrange(0, v@.len() as int),
            forall|i: int| 0 <= i < r@.len() ==> r@[i] == orig[orig.len() - 1 - i],
        decreases v@.len(),
    {
        let x = v.pop().unwrap();
        r.push(x);
    }
    r
}

/// Rewrites a markdown event stream in one pass: small local SVG images
/// are inlined in place of the event that follows them, and the other
/// local images are preloaded, in document order.
pub fn rewrite_events<E>(cfg: &Config, files: &Vec<StaticFile>, events: Vec<MdEvent<E>>) -> (r:
    Result<(Vec<Emitted<E>>, Vec<String>), Error>)
    ensures
        r matches Ok((out, hints)) ==> exists|acts: Seq<Option<Action>>|
            #[trigger] actions_fit(*cfg, files@, events@, acts) && {
                let st = pass(events@, acts, events@.len());
                &&& outs_view(out@) == st.out
                &&& texts_of(hints@) == st.hints
            },
        r matches Err(e) ==> images_error(*cfg, files@, images_of(events@), e),
        r is Ok <==> images_ok(*cfg, files@, images_of(events@)),
{
    let ghost evs = events@;
    let n = events.len();
    let mut rev = reversed(events);
    let mut out: Vec<Emitted<E>> = Vec::new();
    let mut hints: Vec<String> = Vec::new();
    let mut state = SvgState::Idle;
    let ghost mut acts: Seq<Option<Action>> = seq![];
    let mut i: usize = 0;
    while i < n
        invariant
            evs == events@,
            n == evs.len(),
            i <= n,
            rev@.len() == n - i,
            forall|k: int| 0 <= k < rev@.len() ==> rev@[k] == evs[n - 1 - k],
            acts.len() == i,
            actions_fit(*cfg, files@, evs.subrange(0, i as int), acts),
            pass(evs, acts, i as nat).out == outs_view(out@),
            pass(evs, acts, i as nat).hints == texts_of(hints@),
            pass(evs, acts, i as nat).pending == state@,
            forall|j: int|
                0 <= j < i && local_image(#[trigger] images_of(evs)[j]) ==> action_ok(
                    *cfg,
                    files@,
                    image_src(images_of(evs)[j]),
                    image_title(images_of(evs)[j]),
                ),
        decreases n - i,
    {
        let ev = rev.pop().unwrap();
        assert(ev == evs[i as int]);
        let ghost before = acts;
        let MdEvent { event, image } = ev;
        let local = match &image {
            Some(img) => img.src.unicode_len() > 0 && img.src.as_str().get_char(0) == '/',
            None => false,
        };
        if local {
            let img = image.unwrap();
            let act = match image_action(cfg, files, img.src.as_str(), img.title.as_str()) {
                Ok(a) => a,
                Err(e) => {
                    assert(evs[i as int].image->0 == img);
                    assert(images_of(evs)[i as int] == Some((img.src@, img.title@)));
                    return Err(e);
                },
            };
            proof {
                acts = acts.push(Some(act@));
            }
            match act {
                ImageAction::Inline(s) => {
                    state = SvgState::SvgPending(s);
                },
                ImageAction::Preload(h) => {
                    out.push(Emitted::Event(event));
                    hints.push(h);
                },
                ImageAction::Keep => {
                    out.push(Emitted::Event(event));
                },
            }
        } else {
            proof {
                acts = acts.push(None);
            }
            match state {
                SvgState::SvgPending(s) => {
                    out.push(Emitted::Html(s));
                    state = SvgState::Idle;
                },
                SvgState::Idle => {
                    out.push(Emitted::Event(event));
                },
            }
        }
        proof {
            assert(acts.subrange(0, i as int) =~= before);
            assert(pass(evs, acts, i as nat) == pass(evs, before, i as nat)) by {
                lemma_pass_prefix(evs, acts, before, i as nat);
            }
            assert(outs_view(out@) =~= pass(evs, acts, (i + 1) as nat).out);
            assert(texts_of(hints@) =~= pass(evs, acts, (i + 1) as nat).hints);
            assert forall|k: int| 0 <= k < i + 1 implies match #[trigger] acts[k] {
                None => !starts_local_image(evs.subrange(0, i + 1)[k]),
                Some(a) => starts_local_image(evs.subrange(0, i + 1)[k]) && action_fits(
                    *cfg,
                    files@,
                    evs.subrange(0, i + 1)[k].image->0.src@,
                    evs.subrange(0, i + 1)[k].image->0.title@,
                    a,
                ),
            } by {
                if k < i {
                    assert(acts[k] == before[k]);
                    assert(evs.subrange(0, i + 1)[k] == evs.subrange(0, i as int)[k]);
                }
            }
        }
        i = i + 1;
    }
    assert(evs.subrange(0, n as int) =~= evs);
    assert forall|j: int|
        0 <= j < images_of(evs).len() && local_image(#[trigger] images_of(evs)[j]) implies action_ok(
            *cfg,
            files@,
            image_src(images_of(evs)[j]),
            image_title(images_of(evs)[j]),
        ) by {
        assert(j < i);
    }
    Ok((out, hints))
}

/// The pass over the first `n` events depends on the first `n` actions only.
proof fn lemma_pass_prefix<E>(
    events: Seq<MdEvent<E>>,
    a: Seq<Option<Action>>,
    b: Seq<Option<Action>>,
    n: nat,
)
    requires
        n <= a.len(),
        n <= b.len(),
        forall|k: int| 0 <= k < n ==> a[k] == b[k],
    ensures
        pass(events, a, n) == pass(events, b, n),
    decreases n,
{
    if n > 0 {
        lemma_pass_prefix(events, a, b, (n - 1) as nat);
    }
}

/// The image preload hints of the local images among the first `n` of
/// `images`, in document order.
pub open spec fn local_image_hints(images: Seq<Option<(Seq<char>, Seq<char>)>>, n: nat) -> Seq<
    Seq<char>,
>
    decreases n,
{
    if n == 0 {
        seq![]
    } else if local_image(images[n - 1]) {
        local_image_hints(images, (n - 1) as nat).push(
            preload_value(image_src(images[n - 1]).drop_first(), "image"@),
        )
    } else {
        local_image_hints(images, (n - 1) as nat)
    }
}

/// The local image with source `src` is not inlined: it is no SVG to
/// inline, or its SVG file is larger than the limit.
pub open spec fn not_inlined(cfg: Config, files: Seq<StaticFile>, src: Seq<char>) -> bool {
    !svg_candidate(cfg, src) || (percent_decoded(src.drop_first()) matches Some(d) && (file_index(
        files,
        d,
    ) matches Some(k) && files[k].size > cfg.max_inline_size))
}

/// With preloading on and no local image inlined, the pass gives exactly
/// one image preload hint for each local image, in document order.
pub proof fn lemma_image_hints_in_order<E>(
    cfg: Config,
    files: Seq<StaticFile>,
    events: Seq<MdEvent<E>>,
    acts: Seq<Option<Action>>,
)
    requires
        actions_fit(cfg, files, events, acts),
        !cfg.disable_preload,
        forall|i: int| 0 <= i < acts.len() ==> !(#[trigger] acts[i] matches Some(Action::Inline(_))),
    ensures
        pass(events, acts, events.len()).hints == local_image_hints(images_of(events), events.len()),
{
    lemma_image_hints_prefix(cfg, files, events, acts, events.len());
}

proof fn lemma_image_hints_prefix<E>(
    cfg: Config,
    files: Seq<StaticFile>,
    events: Seq<MdEvent<E>>,
    acts: Seq<Option<Action>>,
    n: nat,
)
    requires
        actions_fit(cfg, files, events, acts),
        !cfg.disable_preload,
        forall|i: int| 0 <= i < acts.len() ==> !(#[trigger] acts[i] matches Some(Action::Inline(_))),
        n <= events.len(),
    ensures
        pass(events, acts, n).hints == local_image_hints(images_of(events), n),
    decreases n,
{
    if n > 0 {
        lemma_image_hints_prefix(cfg, files, events, acts, (n - 1) as nat);
        let i = n - 1;
        assert(local_image(images_of(events)[i]) == starts_local_image(events[i]));
        match acts[i] {
            Some(a) => {
                assert(!(acts[i] matches Some(Action::Inline(_))));
                let src = events[i].image->0.src@;
                if svg_candidate(cfg, src) {
                    let d = percent_decoded(src.drop_first())->0;
                    let k = file_index(files, d)->0;
                    assert(files[k].size > cfg.max_inline_size);
                }
                assert(plain_action(cfg, src) == Some(a));
            },
            None => {},
        }
    }
}

/// With preloading on and none of the local images inlined, the pass gives
/// one image preload hint for each local image, in document order.
pub proof fn lemma_document_image_hints<E>(
    cfg: Config,
    files: Seq<StaticFile>,
    images: Seq<Option<(Seq<char>, Seq<char>)>>,
    events: Seq<MdEvent<E>>,
    acts: Seq<Option<Action>>,
)
    requires
        images_of(events) == images,
        actions_fit(cfg, files, events, acts),
        !cfg.disable_preload,
        forall|i: int|
            0 <= i < images.len() && local_image(#[trigger] images[i]) ==> not_inlined(
                cfg,
                files,
                image_src(images[i]),
            ),
    ensures
        pass(events, acts, events.len()).hints == local_image_hints(images, images.len()),
{
    assert forall|i: int| 0 <= i < acts.len() implies !(#[trigger] acts[i] matches Some(
        Action::Inline(_),
    )) by {
        if acts[i] is Some {
            assert(local_image(images[i]));
            assert(not_inlined(cfg, files, image_src(images[i])));
        }
    }
    lemma_image_hints_in_order(cfg, files, events, acts);
}
/// The actions of the local images are fixed by the images alone.
pub proof fn lemma_actions_unique<E>(
    cfg: Config,
    files: Seq<StaticFile>,
    e1: Seq<MdEvent<E>>,
    a1: Seq<Option<Action>>,
    e2: Seq<MdEvent<E>>,
    a2: Seq<Option<Action>>,
)
    requires
        images_of(e1) == images_of(e2),
        actions_fit(cfg, files, e1, a1),
        actions_fit(cfg, files, e2, a2),
    ensures
        a1 == a2,
{
    assert(e1.len() == images_of(e1).len());
    assert(e2.len() == images_of(e2).len());
    assert forall|i: int| 0 <= i < a1.len() implies a1[i] == a2[i] by {
        assert(images_of(e1)[i] == images_of(e2)[i]);
        assert(starts_local_image(e1[i]) == local_image(images_of(e1)[i]));
        assert(starts_local_image(e2[i]) == local_image(images_of(e2)[i]));
        if a1[i] is Some {
            assert(e1[i].image->0.src@ == e2[i].image->0.src@);
            assert(e1[i].image->0.title@ == e2[i].image->0.title@);
        }
    }
    assert(a1 =~= a2);
}

/// The hints and the pending replacement of the pass depend on the actions
/// alone.
pub proof fn lemma_pass_hints_same<E>(e1: Seq<MdEvent<E>>, e2: Seq<MdEvent<E>>, acts: Seq<Option<Action>>, n: nat)
    ensures
        pass(e1, acts, n).hints == pass(e2, acts, n).hints,
        pass(e1, acts, n).pending == pass(e2, acts, n).pending,
    decreases n,
{
    if n > 0 {
        lemma_pass_hints_same(e1, e2, acts, (n - 1) as nat);
    }
}
} // verus!
