//! The Fatal Model site: listing URLs, listing pages and profile pages.

use vstd::prelude::*;

use crate::crawler::dom::{
    css_select, element_text, element_text_exec, element_views, joined_text, select_elements,
    str_views, ElementView, HtmlElement,
};
use crate::entropy::now_micros;
use crate::error::ArachneError;
use crate::models::{
    clone_opt_string, opt_view, stub_views, string_views, BodyStat, BodyStatView, PriceCandidate,
    PriceCandidateView, ProfileStub, ProfileStubView, ScrapedProfile, ScrapedProfileView,
};
use crate::pipeline::normalize::{normalize_phone, spec_normalize_phone};
use crate::text::{
    all_digits, ascii_digits, chars_of, concat, contains, contains_chars, decimal, digits_of,
    digits_value, ends_with, ends_with_chars, is_ascii_digit, is_digit, join,
    lemma_ascii_digits_are_digits, lemma_decimal_injective, lemma_decimal_value,
    lemma_split_last_append, lemma_split_last_suffix, lemma_seq_lt_irreflexive, lemma_seq_lt_total,
    lemma_seq_lt_transitive, lemma_split_nonempty, parse_digits_i32, push_decimal,
    replace_all, replace_all_chars, seq_eq_exec, seq_lt, seq_lt_exec, split_chars, split_on,
    starts_with, starts_with_chars, string_of, trim, trim_chars, views,
};

verus! {

pub const BASE_URL: &'static str = "https://fatalmodel.com";

/// Links to profile pages on a listing page.
pub const CARD_SELECTOR: &'static str = "a[href*='/acompanhantes/'][href*='-']";

pub const IMG_SELECTOR: &'static str = "img";

pub open spec fn listing_url_spec(city: Seq<char>, page: u32) -> Seq<char> {
    if page <= 1 {
        BASE_URL@ + "/acompanhantes/"@ + city
    } else {
        BASE_URL@ + "/acompanhantes/"@ + city + "?page="@ + decimal(page as nat)
    }
}

/// What the crawler reads of one card on a listing page.
#[derive(Debug)]
pub struct ListingCard {
    /// The card's `href`.
    pub href: Option<String>,
    /// The card's text nodes.
    pub text: Vec<String>,
    /// The `src` (or else `data-src`) of the first image inside the card.
    pub thumbnail_url: Option<String>,
}

pub struct ListingCardView {
    pub href: Option<Seq<char>>,
    pub text: Seq<Seq<char>>,
    pub thumbnail_url: Option<Seq<char>>,
}

impl View for ListingCard {
    type V = ListingCardView;

    open spec fn view(&self) -> ListingCardView {
        ListingCardView {
            href: opt_view(self.href),
            text: string_views(self.text@),
            thumbnail_url: opt_view(self.thumbnail_url),
        }
    }
}

pub open spec fn card_views(v: Seq<ListingCard>) -> Seq<ListingCardView> {
    v.map_values(|c: ListingCard| c@)
}

/// The stub that a listing card gives, if any: the card must link to a profile
/// (`/acompanhantes/` in an `href` of more than 20 bytes), not to another listing
/// page (`?page=` or a link that ends in `/{city}`), and must have a name.
/// Relative links are made absolute on the site's base URL.
pub open spec fn card_stub(card: ListingCardView, city: Seq<char>) -> Option<ProfileStubView> {
    match card.href {
        None => None,
        Some(h) => {
            if !(contains(h, "/acompanhantes/"@) && (vstd::utf8::encode_utf8(h).len() as usize)
                > 20) {
                None
            } else if contains(h, "?page="@) || ends_with(h, "/"@ + city) {
                None
            } else {
                let url = if starts_with(h, "http"@) {
                    h
                } else {
                    BASE_URL@ + h
                };
                let name = trim(join(card.text, seq![' ']));
                if name.len() == 0 {
                    None
                } else {
                    Some(ProfileStubView { name, url, thumbnail_url: card.thumbnail_url, city })
                }
            }
        },
    }
}

/// The stubs that the cards give, in card order.
pub open spec fn candidate_stubs(cards: Seq<ListingCardView>, city: Seq<char>) -> Seq<
    ProfileStubView,
>
    decreases cards.len(),
{
    if cards.len() == 0 {
        Seq::<ProfileStubView>::empty()
    } else {
        let prev = candidate_stubs(cards.drop_last(), city);
        match card_stub(cards.last(), city) {
            Some(s) => prev.push(s),
            None => prev,
        }
    }
}

/// `c[k]` is the first stub of `c` with its URL.
pub open spec fn first_with_url(c: Seq<ProfileStubView>, k: int) -> bool {
    forall|j: int| 0 <= j < k ==> (#[trigger] c[j]).url != c[k].url
}

/// Consecutive URLs of `r` strictly increase.
pub open spec fn sorted_by_url(r: Seq<ProfileStubView>) -> bool {
    forall|i: int, j: int| 0 <= i < j < r.len() ==> seq_lt(#[trigger] r[i].url, #[trigger] r[j].url)
}

/// `s` is the first stub of `c` with its URL.
pub open spec fn first_occurrence(c: Seq<ProfileStubView>, s: ProfileStubView) -> bool {
    exists|k: int| #![trigger c[k]] 0 <= k < c.len() && s == c[k] && first_with_url(c, k)
}

/// Each stub of `r` is the first stub of `c` with its URL.
pub open spec fn picks_first(c: Seq<ProfileStubView>, r: Seq<ProfileStubView>) -> bool {
    forall|i: int| 0 <= i < r.len() ==> first_occurrence(c, #[trigger] r[i])
}

/// Each URL of `c` is the URL of a stub of `r`.
pub open spec fn covers_urls(c: Seq<ProfileStubView>, r: Seq<ProfileStubView>) -> bool {
    forall|k: int|
        0 <= k < c.len() ==> exists|i: int| 0 <= i < r.len() && (#[trigger] r[i]).url == (
        #[trigger] c[k]).url
}

/// `r` is `c` deduplicated by URL: one stub per distinct URL of `c`, the first one
/// with that URL, ordered by URL.
#[verifier::opaque]
pub open spec fn is_url_dedup(c: Seq<ProfileStubView>, r: Seq<ProfileStubView>) -> bool {
    &&& sorted_by_url(r)
    &&& picks_first(c, r)
    &&& covers_urls(c, r)
}

/// The `src` (or else the `data-src`) of the first image in a card's markup.
pub open spec fn first_image_source(card_html: Seq<char>) -> Option<Seq<char>> {
    match css_select(card_html, IMG_SELECTOR@, seq!["src"@, "data-src"@]) {
        Some(imgs) => if imgs.len() > 0 {
            match imgs[0].attrs[0] {
                Some(s) => Some(s),
                None => imgs[0].attrs[1],
            }
        } else {
            None
        },
        None => None,
    }
}

pub open spec fn card_of_element(e: ElementView) -> ListingCardView {
    ListingCardView { href: e.attrs[0], text: e.text, thumbnail_url: first_image_source(e.html) }
}

/// The cards of a listing page, in document order.
pub open spec fn listing_cards(html: Seq<char>) -> Seq<ListingCardView> {
    match css_select(html, CARD_SELECTOR@, seq!["href"@]) {
        Some(els) => els.map_values(|e: ElementView| card_of_element(e)),
        None => Seq::<ListingCardView>::empty(),
    }
}


pub const HEADING_SELECTOR: &'static str = "h1";

pub const BIO_SELECTOR: &'static str = "[class*='description'], [class*='bio'], [class*='about']";

pub const AGE_SELECTOR: &'static str = "[class*='age'], [class*='idade']";

pub const PHONE_SELECTOR: &'static str =
    "a[href^='tel:'], [class*='phone'], [class*='whatsapp'], [class*='telefone']";

pub const PHOTO_SELECTOR: &'static str =
    "[class*='gallery'] img, [class*='photo'] img, [class*='slider'] img, [class*='carousel'] img";

pub const SERVICES_SELECTOR: &'static str =
    "[class*='service'] li, [class*='tag'], [class*='skill'], [class*='category'] span";

pub const PRICE_SELECTOR: &'static str = "[class*='price'], [class*='valor'], [class*='rate']";

pub const HEIGHT_SELECTOR: &'static str = "[class*='height'], [class*='altura']";

pub const WEIGHT_SELECTOR: &'static str = "[class*='weight'], [class*='peso']";

pub const ETHNICITY_SELECTOR: &'static str = "[class*='ethnic'], [class*='etnia']";

pub const HAIR_SELECTOR: &'static str = "[class*='hair'], [class*='cabelo']";

pub const EYES_SELECTOR: &'static str = "[class*='eyes'], [class*='olhos']";

pub const STATE_SELECTOR: &'static str = "[class*='state'], [class*='uf'], [class*='location'] span";

/// What the crawler reads of a profile page: the elements that each of its
/// selectors picks out (`None` where a selector does not parse).
#[derive(Debug)]
pub struct ProfilePageParts {
    pub heading: Option<Vec<HtmlElement>>,
    pub bio: Option<Vec<HtmlElement>>,
    pub age: Option<Vec<HtmlElement>>,
    pub phone: Option<Vec<HtmlElement>>,
    /// Gallery images, with their `src` and `data-src`.
    pub photos: Option<Vec<HtmlElement>>,
    pub services: Option<Vec<HtmlElement>>,
    /// Price elements, with their `class`.
    pub prices: Option<Vec<HtmlElement>>,
    pub height: Option<Vec<HtmlElement>>,
    pub weight: Option<Vec<HtmlElement>>,
    pub ethnicity: Option<Vec<HtmlElement>>,
    pub hair: Option<Vec<HtmlElement>>,
    pub eyes: Option<Vec<HtmlElement>>,
    pub state: Option<Vec<HtmlElement>>,
}

pub open spec fn opt_elements(o: Option<Vec<HtmlElement>>) -> Option<Seq<ElementView>> {
    match o {
        Some(v) => Some(element_views(v@)),
        None => None,
    }
}

pub struct ProfilePagePartsView {
    pub heading: Option<Seq<ElementView>>,
    pub bio: Option<Seq<ElementView>>,
    pub age: Option<Seq<ElementView>>,
    pub phone: Option<Seq<ElementView>>,
    pub photos: Option<Seq<ElementView>>,
    pub services: Option<Seq<ElementView>>,
    pub prices: Option<Seq<ElementView>>,
    pub height: Option<Seq<ElementView>>,
    pub weight: Option<Seq<ElementView>>,
    pub ethnicity: Option<Seq<ElementView>>,
    pub hair: Option<Seq<ElementView>>,
    pub eyes: Option<Seq<ElementView>>,
    pub state: Option<Seq<ElementView>>,
}

impl View for ProfilePageParts {
    type V = ProfilePagePartsView;

    open spec fn view(&self) -> ProfilePagePartsView {
        ProfilePagePartsView {
            heading: opt_elements(self.heading),
            bio: opt_elements(self.bio),
            age: opt_elements(self.age),
            phone: opt_elements(self.phone),
            photos: opt_elements(self.photos),
            services: opt_elements(self.services),
            prices: opt_elements(self.prices),
            height: opt_elements(self.height),
            weight: opt_elements(self.weight),
            ethnicity: opt_elements(self.ethnicity),
            hair: opt_elements(self.hair),
            eyes: opt_elements(self.eyes),
            state: opt_elements(self.state),
        }
    }
}

/// The parts of the profile page `html`.
pub open spec fn page_parts(html: Seq<char>) -> ProfilePagePartsView {
    ProfilePagePartsView {
        heading: css_select(html, HEADING_SELECTOR@, Seq::<Seq<char>>::empty()),
        bio: css_select(html, BIO_SELECTOR@, Seq::<Seq<char>>::empty()),
        age: css_select(html, AGE_SELECTOR@, Seq::<Seq<char>>::empty()),
        phone: css_select(html, PHONE_SELECTOR@, Seq::<Seq<char>>::empty()),
        photos: css_select(html, PHOTO_SELECTOR@, seq!["src"@, "data-src"@]),
        services: css_select(html, SERVICES_SELECTOR@, Seq::<Seq<char>>::empty()),
        prices: css_select(html, PRICE_SELECTOR@, seq!["class"@]),
        height: css_select(html, HEIGHT_SELECTOR@, Seq::<Seq<char>>::empty()),
        weight: css_select(html, WEIGHT_SELECTOR@, Seq::<Seq<char>>::empty()),
        ethnicity: css_select(html, ETHNICITY_SELECTOR@, Seq::<Seq<char>>::empty()),
        hair: css_select(html, HAIR_SELECTOR@, Seq::<Seq<char>>::empty()),
        eyes: css_select(html, EYES_SELECTOR@, Seq::<Seq<char>>::empty()),
        state: css_select(html, STATE_SELECTOR@, Seq::<Seq<char>>::empty()),
    }
}

/// The text of the first element picked out, if it has any.
pub open spec fn first_text(els: Option<Seq<ElementView>>) -> Option<Seq<char>> {
    match els {
        Some(v) => if v.len() > 0 && element_text(v[0]).len() > 0 {
            Some(element_text(v[0]))
        } else {
            None
        },
        None => None,
    }
}

/// The non-empty texts of the elements, in order.
pub open spec fn nonempty_texts(v: Seq<ElementView>) -> Seq<Seq<char>>
    decreases v.len(),
{
    if v.len() == 0 {
        Seq::<Seq<char>>::empty()
    } else if element_text(v.last()).len() > 0 {
        nonempty_texts(v.drop_last()).push(element_text(v.last()))
    } else {
        nonempty_texts(v.drop_last())
    }
}

pub open spec fn text_list(els: Option<Seq<ElementView>>) -> Seq<Seq<char>> {
    match els {
        Some(v) => nonempty_texts(v),
        None => Seq::<Seq<char>>::empty(),
    }
}

/// An image's `src`, or else its `data-src`.
pub open spec fn image_source(e: ElementView) -> Option<Seq<char>> {
    match e.attrs[0] {
        Some(s) => Some(s),
        None => e.attrs[1],
    }
}

/// A photo URL is kept unless it is a placeholder or an avatar.
pub open spec fn is_profile_photo(u: Seq<char>) -> bool {
    !contains(u, "placeholder"@) && !contains(u, "avatar"@)
}

pub open spec fn photo_sources(v: Seq<ElementView>) -> Seq<Seq<char>>
    decreases v.len(),
{
    if v.len() == 0 {
        Seq::<Seq<char>>::empty()
    } else {
        let prev = photo_sources(v.drop_last());
        match image_source(v.last()) {
            Some(u) => if is_profile_photo(u) {
                prev.push(u)
            } else {
                prev
            },
            None => prev,
        }
    }
}

pub open spec fn photo_list(els: Option<Seq<ElementView>>) -> Seq<Seq<char>> {
    match els {
        Some(v) => photo_sources(v),
        None => Seq::<Seq<char>>::empty(),
    }
}

/// A price text without `R$` and thousands separators, with a decimal point.
pub open spec fn clean_price(t: Seq<char>) -> Seq<char> {
    trim(replace_all(replace_all(replace_all(t, "R$"@, Seq::<char>::empty()), "."@, Seq::<char>::empty()), ","@, "."@))
}

pub open spec fn price_of(e: ElementView) -> PriceCandidateView {
    PriceCandidateView {
        label: match e.attrs[0] {
            Some(c) => c,
            None => "price"@,
        },
        amount_text: clean_price(element_text(e)),
    }
}

pub open spec fn price_candidates(v: Seq<ElementView>) -> Seq<PriceCandidateView>
    decreases v.len(),
{
    if v.len() == 0 {
        Seq::<PriceCandidateView>::empty()
    } else if element_text(v.last()).len() > 0 {
        price_candidates(v.drop_last()).push(price_of(v.last()))
    } else {
        price_candidates(v.drop_last())
    }
}

pub open spec fn price_list(els: Option<Seq<ElementView>>) -> Seq<PriceCandidateView> {
    match els {
        Some(v) => price_candidates(v),
        None => Seq::<PriceCandidateView>::empty(),
    }
}

pub open spec fn stat_entry(key: Seq<char>, els: Option<Seq<ElementView>>) -> Seq<BodyStatView> {
    match first_text(els) {
        Some(v) => seq![BodyStatView { key, value: v }],
        None => Seq::<BodyStatView>::empty(),
    }
}

/// Height, weight, ethnicity, hair and eyes, each where the page gives it.
pub open spec fn body_stats_of(p: ProfilePagePartsView) -> Seq<BodyStatView> {
    stat_entry("height"@, p.height) + stat_entry("weight"@, p.weight) + stat_entry(
        "ethnicity"@,
        p.ethnicity,
    ) + stat_entry("hair"@, p.hair) + stat_entry("eyes"@, p.eyes)
}

/// An age read from the digits of a text.
pub open spec fn age_of(t: Seq<char>) -> Option<i32> {
    let d = ascii_digits(t);
    if d.len() > 0 && digits_value(d) <= i32::MAX {
        Some(digits_value(d) as i32)
    } else {
        None
    }
}

/// The site's id of a profile: the digits after the last `-` of the URL's last
/// path segment.
pub open spec fn source_id_of(url: Seq<char>) -> Option<Seq<char>> {
    let seg = split_on(url, '/').last();
    let id = split_on(seg, '-').last();
    if all_digits(id) && id.len() > 0 {
        Some(id)
    } else {
        None
    }
}

/// The profile that a page's parts give for `stub`, scraped at `scraped_at_micros`.
pub open spec fn assemble_profile_spec(
    p: ProfilePagePartsView,
    stub: ProfileStubView,
    scraped_at_micros: i64,
) -> ScrapedProfileView {
    ScrapedProfileView {
        source_url: stub.url,
        source_id: source_id_of(stub.url),
        site: "fatal_model"@,
        name: match first_text(p.heading) {
            Some(n) => n,
            None => stub.name,
        },
        city: stub.city,
        state: first_text(p.state),
        age: match first_text(p.age) {
            Some(t) => age_of(t),
            None => None,
        },
        phone: match first_text(p.phone) {
            Some(t) => Some(spec_normalize_phone(t)),
            None => None,
        },
        bio: first_text(p.bio),
        services: text_list(p.services),
        pricing: price_list(p.prices),
        body_stats: body_stats_of(p),
        photo_urls: photo_list(p.photos),
        scraped_at_micros,
    }
}

/// The site's crawler logic: URLs and page parsing.
pub struct FatalModelCrawler;

impl FatalModelCrawler {
    /// Site identifier used as the key in the crawler registry.
    pub fn site_name(&self) -> (r: &'static str)
        ensures
            r@ == "fatal_model"@,
    {
        "fatal_model"
    }

    /// The URL of listing page `page` of `city` (the first page has no page parameter).
    pub fn listing_url(city: &str, page: u32) -> (r: String)
        ensures
            r@ == listing_url_spec(city@, page),
    {
        let base = chars_of(BASE_URL);
        let path = chars_of("/acompanhantes/");
        let c = chars_of(city);
        let a = concat(&base, &path);
        let mut url = concat(&a, &c);
        if page > 1 {
            let q = chars_of("?page=");
            url = concat(&url, &q);
            push_decimal(&mut url, page as u64);
        }
        string_of(&url)
    }

    /// Parse a listing page into profile stubs, one per distinct profile URL,
    /// ordered by URL.
    pub fn parse_listing_page(html: &str, city: &str) -> (r: Vec<ProfileStub>)
        ensures
            is_url_dedup(candidate_stubs(listing_cards(html@), city@), stub_views(r@)),
            forall|i: int, j: int| 0 <= i < j < r.len() ==> seq_lt(#[trigger] r@[i].url@, #[trigger] r@[j].url@),
            forall|i: int| 0 <= i < r.len() ==> (#[trigger] r@[i]).city@ == city@ && r@[i].name@.len() > 0,
            forall|i: int, j: int| 0 <= i < r.len() && 0 <= j < r.len() && i != j ==> #[trigger] r@[i].url@ != #[trigger] r@[j].url@,
    {
        let mut names: Vec<&str> = Vec::new();
        names.push("href");
        assert(str_views(names@) == seq!["href"@]);
        let r = match select_elements(html, CARD_SELECTOR, names.as_slice()) {
            None => {
                let r: Vec<ProfileStub> = Vec::new();
                assert(is_url_dedup(Seq::<ProfileStubView>::empty(), stub_views(r@))) by {
                    reveal(is_url_dedup);
                }
                assert(candidate_stubs(listing_cards(html@), city@) == Seq::<ProfileStubView>::empty());
                r
            },
            Some(els) => {
                let ghost ev = element_views(els@);
                let mut cards: Vec<ListingCard> = Vec::new();
                for i in 0..els.len()
                    invariant
                        ev == element_views(els@),
                        forall|k: int| 0 <= k < els@.len() ==> (#[trigger] els@[k]).attrs@.len() == 1,
                        card_views(cards@) == ev.take(i as int).map_values(
                            |e: ElementView| card_of_element(e),
                        ),
                {
                    let e = &els[i];
                    assert(ev[i as int] == e@);
                    let card = ListingCard {
                        href: clone_opt_string(&e.attrs[0]),
                        text: clone_strings(&e.text),
                        thumbnail_url: first_image_source_exec(e.html.as_str()),
                    };
                    let ghost before = cards@;
                    cards.push(card);
                    assert(card_views(cards@) == card_views(before).push(card@));
                    assert(ev.take(i + 1).map_values(|e: ElementView| card_of_element(e)) == ev.take(
                        i as int,
                    ).map_values(|e: ElementView| card_of_element(e)).push(card_of_element(ev[i as int])));
                }
                assert(ev.take(els.len() as int) == ev);
                stubs_from_cards(&cards, city)
            },
        };
        proof {
            let c = candidate_stubs(listing_cards(html@), city@);
            lemma_dedup_facts(c, stub_views(r@));
            lemma_candidate_stubs_city(listing_cards(html@), city@);
            assert forall|i: int| 0 <= i < r.len() implies (#[trigger] r@[i]).city@ == city@ && r@[i].name@.len() > 0 by {
                assert(stub_views(r@)[i] == r@[i]@);
                assert(c.contains(stub_views(r@)[i]));
            }
            assert forall|i: int, j: int| 0 <= i < j < r.len() implies seq_lt(#[trigger] r@[i].url@, #[trigger] r@[j].url@) by {
                assert(stub_views(r@)[i] == r@[i]@);
                assert(stub_views(r@)[j] == r@[j]@);
                assert(seq_lt(stub_views(r@)[i].url, stub_views(r@)[j].url));
            }
            assert forall|i: int, j: int| 0 <= i < r.len() && 0 <= j < r.len() && i != j implies #[trigger] r@[i].url@ != #[trigger] r@[j].url@ by {
                lemma_seq_lt_irreflexive(r@[i].url@);
                if i < j {
                    assert(seq_lt(r@[i].url@, r@[j].url@));
                } else {
                    assert(seq_lt(r@[j].url@, r@[i].url@));
                }
            }
        }
        r
    }

    /// The elements that each of the profile page's selectors picks out of `html`.
    pub fn read_profile_page(html: &str) -> (r: ProfilePageParts)
        ensures
            r@ == page_parts(html@),
            r.photos matches Some(v) ==> forall|i: int| 0 <= i < v.len() ==> (#[trigger] v@[i]).attrs@.len() == 2,
            r.prices matches Some(v) ==> forall|i: int| 0 <= i < v.len() ==> (#[trigger] v@[i]).attrs@.len() == 1,
    {
        let none: Vec<&str> = Vec::new();
        assert(str_views(none@) == Seq::<Seq<char>>::empty());
        let mut photo_attrs: Vec<&str> = Vec::new();
        photo_attrs.push("src");
        photo_attrs.push("data-src");
        assert(str_views(photo_attrs@) == seq!["src"@, "data-src"@]);
        let mut price_attrs: Vec<&str> = Vec::new();
        price_attrs.push("class");
        assert(str_views(price_attrs@) == seq!["class"@]);
        let n = none.as_slice();
        ProfilePageParts {
            heading: select_elements(html, HEADING_SELECTOR, n),
            bio: select_elements(html, BIO_SELECTOR, n),
            age: select_elements(html, AGE_SELECTOR, n),
            phone: select_elements(html, PHONE_SELECTOR, n),
            photos: select_elements(html, PHOTO_SELECTOR, photo_attrs.as_slice()),
            services: select_elements(html, SERVICES_SELECTOR, n),
            prices: select_elements(html, PRICE_SELECTOR, price_attrs.as_slice()),
            height: select_elements(html, HEIGHT_SELECTOR, n),
            weight: select_elements(html, WEIGHT_SELECTOR, n),
            ethnicity: select_elements(html, ETHNICITY_SELECTOR, n),
            hair: select_elements(html, HAIR_SELECTOR, n),
            eyes: select_elements(html, EYES_SELECTOR, n),
            state: select_elements(html, STATE_SELECTOR, n),
        }
    }

    /// The profile that a page's parts give for `stub`, scraped at `scraped_at_micros`.
    pub fn assemble_profile(parts: &ProfilePageParts, stub: &ProfileStub, scraped_at_micros: i64) -> (r: ScrapedProfile)
        requires
            parts.photos matches Some(v) ==> forall|i: int| 0 <= i < v.len() ==> (#[trigger] v@[i]).attrs@.len() == 2,
            parts.prices matches Some(v) ==> forall|i: int| 0 <= i < v.len() ==> (#[trigger] v@[i]).attrs@.len() == 1,
        ensures
            r@ == assemble_profile_spec(parts@, stub@, scraped_at_micros),
    {
        let name = match first_text_exec(&parts.heading) {
            Some(n) => n,
            None => stub.name.clone(),
        };
        let age = match first_text_exec(&parts.age) {
            Some(t) => age_exec(&t),
            None => None,
        };
        let phone = match first_text_exec(&parts.phone) {
            Some(t) => Some(normalize_phone(t.as_str())),
            None => None,
        };
        let r = ScrapedProfile {
            source_url: stub.url.clone(),
            source_id: source_id_exec(&stub.url),
            site: "fatal_model".to_string(),
            name,
            city: stub.city.clone(),
            state: first_text_exec(&parts.state),
            age,
            phone,
            bio: first_text_exec(&parts.bio),
            services: text_list_exec(&parts.services),
            pricing: price_list_exec(&parts.prices),
            body_stats: body_stats_exec(parts),
            photo_urls: photo_list_exec(&parts.photos),
            scraped_at_micros,
        };
        r
    }

    /// Parse a profile page into a scraped profile, stamped with the current time.
    pub fn parse_profile_page(html: &str, stub: &ProfileStub) -> (r: Result<ScrapedProfile, ArachneError>)
        ensures
            r matches Ok(p) && p@ == assemble_profile_spec(page_parts(html@), stub@, p.scraped_at_micros),
    {
        let parts = Self::read_profile_page(html);
        let now = now_micros();
        Ok(Self::assemble_profile(&parts, stub, now))
    }

    /// The stub that one listing card gives, if any.
    pub fn card_stub(card: &ListingCard, city: &str) -> (r: Option<ProfileStub>)
        ensures
            match r {
                Some(s) => card_stub(card@, city@) == Some(s@),
                None => card_stub(card@, city@) is None,
            },
    {
        let h = match &card.href {
            Some(h) => h,
            None => return None,
        };
        let hv = chars_of(h.as_str());
        let profile_path = chars_of("/acompanhantes/");
        if !(contains_chars(&hv, &profile_path) && h.as_str().len() > 20) {
            return None;
        }
        let page_param = chars_of("?page=");
        let mut city_suffix = chars_of("/");
        let city_chars = chars_of(city);
        city_suffix = concat(&city_suffix, &city_chars);
        if contains_chars(&hv, &page_param) || ends_with_chars(&hv, &city_suffix) {
            return None;
        }
        let http = chars_of("http");
        let url = if starts_with_chars(&hv, &http) {
            hv
        } else {
            let base = chars_of(BASE_URL);
            concat(&base, &hv)
        };
        let name = joined_text(&card.text);
        if name.len() == 0 {
            return None;
        }
        Some(
            ProfileStub {
                name: string_of(&name),
                url: string_of(&url),
                thumbnail_url: clone_opt_string(&card.thumbnail_url),
                city: city.to_string(),
            },
        )
    }
}


proof fn lemma_picks_first_push(c: Seq<ProfileStubView>, r: Seq<ProfileStubView>, x: ProfileStubView)
    requires
        picks_first(c, r),
    ensures
        picks_first(c.push(x), r),
{
    let c2 = c.push(x);
    assert forall|i: int| 0 <= i < r.len() implies first_occurrence(c2, #[trigger] r[i]) by {
        assert(first_occurrence(c, r[i]));
        let k = choose|k: int| #![trigger c[k]] 0 <= k < c.len() && r[i] == c[k] && first_with_url(c, k);
        assert(c2[k] == c[k]);
        assert forall|j: int| 0 <= j < k implies (#[trigger] c2[j]).url != c2[k].url by {
            assert(c2[j] == c[j]);
        }
    }
}

proof fn lemma_covers_push_present(c: Seq<ProfileStubView>, r: Seq<ProfileStubView>, x: ProfileStubView, p: int)
    requires
        covers_urls(c, r),
        0 <= p < r.len(),
        r[p].url == x.url,
    ensures
        covers_urls(c.push(x), r),
{
    let c2 = c.push(x);
    assert forall|k: int| 0 <= k < c2.len() implies exists|i: int|
        0 <= i < r.len() && (#[trigger] r[i]).url == (#[trigger] c2[k]).url by {
        if k < c.len() {
            assert(c2[k] == c[k]);
        } else {
            assert(r[p].url == c2[k].url);
        }
    }
}

proof fn lemma_dedup_keep(c: Seq<ProfileStubView>, r: Seq<ProfileStubView>, x: ProfileStubView, p: int)
    requires
        is_url_dedup(c, r),
        0 <= p < r.len(),
        r[p].url == x.url,
    ensures
        is_url_dedup(c.push(x), r),
{
    reveal(is_url_dedup);
    lemma_picks_first_push(c, r, x);
    lemma_covers_push_present(c, r, x, p);
}

/// Where `x`'s URL lies strictly between those of `r[p - 1]` and `r[p]`, it is not
/// the URL of any stub of `r`, nor of any stub of `c`.
proof fn lemma_new_url(c: Seq<ProfileStubView>, r: Seq<ProfileStubView>, x: ProfileStubView, p: int)
    requires
        sorted_by_url(r),
        covers_urls(c, r),
        0 <= p <= r.len(),
        forall|i: int| 0 <= i < p ==> seq_lt(#[trigger] r[i].url, x.url),
        p < r.len() ==> seq_lt(x.url, r[p].url),
    ensures
        forall|i: int| p <= i < r.len() ==> seq_lt(x.url, #[trigger] r[i].url),
        forall|k: int| 0 <= k < c.len() ==> (#[trigger] c[k]).url != x.url,
{
    assert forall|i: int| p <= i < r.len() implies seq_lt(x.url, #[trigger] r[i].url) by {
        if i > p {
            assert(seq_lt(r[p].url, r[i].url));
            lemma_seq_lt_transitive(x.url, r[p].url, r[i].url);
        }
    }
    assert forall|k: int| 0 <= k < c.len() implies (#[trigger] c[k]).url != x.url by {
        let i = choose|i: int| 0 <= i < r.len() && (#[trigger] r[i]).url == c[k].url;
        lemma_seq_lt_irreflexive(x.url);
        if i >= p {
            assert(seq_lt(x.url, r[i].url));
        }
    }
}

proof fn lemma_sorted_insert(r: Seq<ProfileStubView>, x: ProfileStubView, p: int)
    requires
        sorted_by_url(r),
        0 <= p <= r.len(),
        forall|i: int| 0 <= i < p ==> seq_lt(#[trigger] r[i].url, x.url),
        forall|i: int| p <= i < r.len() ==> seq_lt(x.url, #[trigger] r[i].url),
    ensures
        sorted_by_url(r.insert(p, x)),
{
    let r2 = r.insert(p, x);
    assert forall|i: int, j: int| 0 <= i < j < r2.len() implies seq_lt(
        #[trigger] r2[i].url,
        #[trigger] r2[j].url,
    ) by {
        if j < p {
            assert(r2[i] == r[i] && r2[j] == r[j]);
        } else if j == p {
            assert(r2[i] == r[i]);
        } else if i < p {
            assert(r2[i] == r[i] && r2[j] == r[j - 1]);
            lemma_seq_lt_transitive(r[i].url, x.url, r[j - 1].url);
        } else if i == p {
            assert(r2[j] == r[j - 1]);
        } else {
            assert(r2[i] == r[i - 1] && r2[j] == r[j - 1]);
        }
    }
}

proof fn lemma_picks_first_insert(c: Seq<ProfileStubView>, r: Seq<ProfileStubView>, x: ProfileStubView, p: int)
    requires
        picks_first(c, r),
        0 <= p <= r.len(),
        forall|k: int| 0 <= k < c.len() ==> (#[trigger] c[k]).url != x.url,
    ensures
        picks_first(c.push(x), r.insert(p, x)),
{
    let c2 = c.push(x);
    let r2 = r.insert(p, x);
    assert forall|i: int| 0 <= i < r2.len() implies first_occurrence(c2, #[trigger] r2[i]) by {
        if i == p {
            let k = c.len() as int;
            assert(c2[k] == x);
            assert forall|j: int| 0 <= j < k implies (#[trigger] c2[j]).url != c2[k].url by {
                assert(c2[j] == c[j]);
            }
        } else {
            let i0 = if i < p { i } else { i - 1 };
            assert(r2[i] == r[i0]);
            assert(first_occurrence(c, r[i0]));
            let k = choose|k: int|
                #![trigger c[k]]
                0 <= k < c.len() && r[i0] == c[k] && first_with_url(c, k);
            assert(c2[k] == c[k]);
            assert forall|j: int| 0 <= j < k implies (#[trigger] c2[j]).url != c2[k].url by {
                assert(c2[j] == c[j]);
            }
        }
    }
}

proof fn lemma_covers_insert(c: Seq<ProfileStubView>, r: Seq<ProfileStubView>, x: ProfileStubView, p: int)
    requires
        covers_urls(c, r),
        0 <= p <= r.len(),
    ensures
        covers_urls(c.push(x), r.insert(p, x)),
{
    let c2 = c.push(x);
    let r2 = r.insert(p, x);
    assert forall|k: int| 0 <= k < c2.len() implies exists|i: int|
        0 <= i < r2.len() && (#[trigger] r2[i]).url == (#[trigger] c2[k]).url by {
        if k < c.len() {
            assert(c2[k] == c[k]);
            let i = choose|i: int| 0 <= i < r.len() && (#[trigger] r[i]).url == c[k].url;
            if i < p {
                assert(r2[i] == r[i]);
            } else {
                assert(r2[i + 1] == r[i]);
            }
        } else {
            assert(r2[p] == x);
        }
    }
}

proof fn lemma_dedup_insert(c: Seq<ProfileStubView>, r: Seq<ProfileStubView>, x: ProfileStubView, p: int)
    requires
        is_url_dedup(c, r),
        0 <= p <= r.len(),
        forall|i: int| 0 <= i < p ==> seq_lt(#[trigger] r[i].url, x.url),
        p < r.len() ==> seq_lt(x.url, r[p].url),
    ensures
        is_url_dedup(c.push(x), r.insert(p, x)),
{
    reveal(is_url_dedup);
    lemma_new_url(c, r, x, p);
    lemma_sorted_insert(r, x, p);
    lemma_picks_first_insert(c, r, x, p);
    lemma_covers_insert(c, r, x, p);
}

/// `stubs` deduplicated by URL: one stub per distinct URL, the first one with that
/// URL, ordered by URL (what a stable sort by URL followed by `dedup_by` on equal
/// URLs leaves).
pub fn dedup_by_url(stubs: &Vec<ProfileStub>) -> (r: Vec<ProfileStub>)
    ensures
        is_url_dedup(stub_views(stubs@), stub_views(r@)),
{
    let ghost cv = stub_views(stubs@);
    let mut r: Vec<ProfileStub> = Vec::new();
    let mut keys: Vec<Vec<char>> = Vec::new();
    assert(cv.take(0) == Seq::<ProfileStubView>::empty());
    assert(is_url_dedup(cv.take(0), stub_views(r@))) by {
        reveal(is_url_dedup);
                }
    for k in 0..stubs.len()
        invariant
            cv == stub_views(stubs@),
            keys@.len() == r@.len(),
            forall|i: int| 0 <= i < r@.len() ==> (#[trigger] keys@[i])@ == r@[i]@.url,
            is_url_dedup(cv.take(k as int), stub_views(r@)),
    {
        let ghost rv = stub_views(r@);
        assert(cv.take(k + 1) == cv.take(k as int).push(cv[k as int]));
        let u = chars_of(stubs[k].url.as_str());
        let mut p: usize = 0;
        while p < keys.len() && seq_lt_exec(&keys[p], &u)
            invariant
                p <= keys@.len() == rv.len(),
                rv == stub_views(r@),
                forall|i: int| 0 <= i < r@.len() ==> (#[trigger] keys@[i])@ == r@[i]@.url,
                forall|i: int| 0 <= i < p ==> seq_lt(#[trigger] rv[i].url, u@),
            decreases keys@.len() - p,
        {
            p = p + 1;
        }
        if p < keys.len() && seq_eq_exec(&keys[p], &u) {
            proof {
                lemma_dedup_keep(cv.take(k as int), rv, cv[k as int], p as int);
            }
        } else {
            proof {
                if p < keys.len() {
                    lemma_seq_lt_total(rv[p as int].url, u@);
                }
                lemma_dedup_insert(cv.take(k as int), rv, cv[k as int], p as int);
            }
            let ghost kv = keys@;
            let ghost r_before = r@;
            let s = stubs[k].duplicate();
            r.insert(p, s);
            keys.insert(p, u);
            assert(stub_views(r@) == rv.insert(p as int, cv[k as int]));
            assert forall|i: int| 0 <= i < r@.len() implies (#[trigger] keys@[i])@ == r@[i]@.url by {
                if i < p {
                    assert(keys@[i] == kv[i] && r@[i] == r_before[i]);
                } else if i > p {
                    assert(keys@[i] == kv[i - 1] && r@[i] == r_before[i - 1]);
                }
            }
        }
    }
    assert(cv.take(stubs.len() as int) == cv);
    r
}

/// What a deduplicated list keeps of its input: order by URL, and each of its stubs
/// is one of the input's.
pub proof fn lemma_dedup_facts(c: Seq<ProfileStubView>, r: Seq<ProfileStubView>)
    requires
        is_url_dedup(c, r),
    ensures
        sorted_by_url(r),
        forall|i: int| 0 <= i < r.len() ==> c.contains(#[trigger] r[i]),
{
    reveal(is_url_dedup);
    assert forall|i: int| 0 <= i < r.len() implies c.contains(#[trigger] r[i]) by {
        assert(first_occurrence(c, r[i]));
        let k = choose|k: int| #![trigger c[k]] 0 <= k < c.len() && r[i] == c[k] && first_with_url(c, k);
        assert(c[k] == r[i]);
    }
}

/// Every stub that the cards give has the listing's city and a name.
pub proof fn lemma_candidate_stubs_city(cards: Seq<ListingCardView>, city: Seq<char>)
    ensures
        forall|i: int|
            0 <= i < candidate_stubs(cards, city).len() ==> {
                &&& (#[trigger] candidate_stubs(cards, city)[i]).city == city
                &&& candidate_stubs(cards, city)[i].name.len() > 0
            },
    decreases cards.len(),
{
    if cards.len() > 0 {
        lemma_candidate_stubs_city(cards.drop_last(), city);
    }
}

/// The stubs that listing cards give, deduplicated by URL.
pub fn stubs_from_cards(cards: &Vec<ListingCard>, city: &str) -> (r: Vec<ProfileStub>)
    ensures
        is_url_dedup(candidate_stubs(card_views(cards@), city@), stub_views(r@)),
{
    let ghost cv = card_views(cards@);
    let mut cands: Vec<ProfileStub> = Vec::new();
    assert(cv.take(0) == Seq::<ListingCardView>::empty());
    for i in 0..cards.len()
        invariant
            cv == card_views(cards@),
            stub_views(cands@) == candidate_stubs(cv.take(i as int), city@),
    {
        assert(cv.take(i + 1).drop_last() == cv.take(i as int));
        let ghost before = cands@;
        match FatalModelCrawler::card_stub(&cards[i], city) {
            Some(s) => {
                cands.push(s);
                assert(stub_views(cands@) == stub_views(before).push(s@));
            },
            None => {},
        }
    }
    assert(cv.take(cards.len() as int) == cv);
    dedup_by_url(&cands)
}

/// The `src` (or else the `data-src`) of the first image in a card's markup.
pub fn first_image_source_exec(card_html: &str) -> (r: Option<String>)
    ensures
        opt_view(r) == first_image_source(card_html@),
{
    let mut names: Vec<&str> = Vec::new();
    names.push("src");
    names.push("data-src");
    assert(str_views(names@) == seq!["src"@, "data-src"@]);
    match select_elements(card_html, IMG_SELECTOR, names.as_slice()) {
        Some(imgs) => {
            if imgs.len() > 0 {
                assert(imgs@[0].attrs@.len() == 2);
                assert(element_views(imgs@)[0] == imgs@[0]@);
                match &imgs[0].attrs[0] {
                    Some(s) => Some(s.clone()),
                    None => clone_opt_string(&imgs[0].attrs[1]),
                }
            } else {
                None
            }
        },
        None => None,
    }
}

/// The text of the first element picked out, if it has any.
pub fn first_text_exec(els: &Option<Vec<HtmlElement>>) -> (r: Option<String>)
    ensures
        opt_view(r) == first_text(opt_elements(*els)),
{
    match els {
        Some(v) => {
            if v.len() > 0 {
                assert(element_views(v@)[0] == v@[0]@);
                let t = element_text_exec(&v[0]);
                if t.len() > 0 {
                    Some(string_of(&t))
                } else {
                    None
                }
            } else {
                None
            }
        },
        None => None,
    }
}

/// The non-empty texts of the elements picked out, in order.
pub fn text_list_exec(els: &Option<Vec<HtmlElement>>) -> (r: Vec<String>)
    ensures
        string_views(r@) == text_list(opt_elements(*els)),
{
    let mut r: Vec<String> = Vec::new();
    match els {
        Some(v) => {
            let ghost ev = element_views(v@);
            assert(ev.take(0) == Seq::<ElementView>::empty());
            for i in 0..v.len()
                invariant
                    ev == element_views(v@),
                    string_views(r@) == nonempty_texts(ev.take(i as int)),
            {
                assert(ev.take(i + 1).drop_last() == ev.take(i as int));
                assert(ev[i as int] == v@[i as int]@);
                let t = element_text_exec(&v[i]);
                if t.len() > 0 {
                    let ghost before = r@;
                    let st = string_of(&t);
                    r.push(st);
                    assert(string_views(r@) == string_views(before).push(st@));
                }
            }
            assert(ev.take(v.len() as int) == ev);
        },
        None => {},
    }
    r
}

/// The URLs of the gallery images picked out, placeholders and avatars left out.
pub fn photo_list_exec(els: &Option<Vec<HtmlElement>>) -> (r: Vec<String>)
    requires
        els matches Some(v) ==> forall|i: int| 0 <= i < v.len() ==> (#[trigger] v@[i]).attrs@.len() == 2,
    ensures
        string_views(r@) == photo_list(opt_elements(*els)),
{
    let mut r: Vec<String> = Vec::new();
    let placeholder = chars_of("placeholder");
    let avatar = chars_of("avatar");
    match els {
        Some(v) => {
            let ghost ev = element_views(v@);
            assert(ev.take(0) == Seq::<ElementView>::empty());
            for i in 0..v.len()
                invariant
                    ev == element_views(v@),
                    forall|k: int| 0 <= k < v.len() ==> (#[trigger] v@[k]).attrs@.len() == 2,
                    placeholder@ == "placeholder"@,
                    avatar@ == "avatar"@,
                    string_views(r@) == photo_sources(ev.take(i as int)),
            {
                assert(ev.take(i + 1).drop_last() == ev.take(i as int));
                assert(ev[i as int] == v@[i as int]@);
                let e = &v[i];
                let src = match &e.attrs[0] {
                    Some(s) => Some(s.clone()),
                    None => clone_opt_string(&e.attrs[1]),
                };
                if let Some(u) = src {
                    let uc = chars_of(u.as_str());
                    if !contains_chars(&uc, &placeholder) && !contains_chars(&uc, &avatar) {
                        let ghost before = r@;
                        r.push(u);
                        assert(string_views(r@) == string_views(before).push(uc@));
                    }
                }
            }
            assert(ev.take(v.len() as int) == ev);
        },
        None => {},
    }
    r
}

/// A price text without `R$` and thousands separators, with a decimal point, trimmed.
pub fn clean_price_exec(t: &Vec<char>) -> (r: Vec<char>)
    ensures
        r@ == clean_price(t@),
{
    let currency = chars_of("R$");
    let dot = chars_of(".");
    let comma = chars_of(",");
    let nothing: Vec<char> = Vec::new();
    assert(nothing@ == Seq::<char>::empty());
    proof {
        reveal_strlit("R$");
        reveal_strlit(".");
        reveal_strlit(",");
    }
    let a = replace_all_chars(t, &currency, &nothing);
    let b = replace_all_chars(&a, &dot, &nothing);
    let c = replace_all_chars(&b, &comma, &dot);
    trim_chars(&c)
}

/// The price candidates of the price elements picked out, in order.
pub fn price_list_exec(els: &Option<Vec<HtmlElement>>) -> (r: Vec<PriceCandidate>)
    requires
        els matches Some(v) ==> forall|i: int| 0 <= i < v.len() ==> (#[trigger] v@[i]).attrs@.len() == 1,
    ensures
        r@.map_values(|p: PriceCandidate| p@) == price_list(opt_elements(*els)),
{
    let mut r: Vec<PriceCandidate> = Vec::new();
    match els {
        Some(v) => {
            let ghost ev = element_views(v@);
            assert(ev.take(0) == Seq::<ElementView>::empty());
            for i in 0..v.len()
                invariant
                    ev == element_views(v@),
                    forall|k: int| 0 <= k < v.len() ==> (#[trigger] v@[k]).attrs@.len() == 1,
                    r@.map_values(|p: PriceCandidate| p@) == price_candidates(ev.take(i as int)),
            {
                assert(ev.take(i + 1).drop_last() == ev.take(i as int));
                assert(ev[i as int] == v@[i as int]@);
                let e = &v[i];
                let t = element_text_exec(e);
                if t.len() > 0 {
                    let label = match &e.attrs[0] {
                        Some(c) => c.clone(),
                        None => "price".to_string(),
                    };
                    let amount = clean_price_exec(&t);
                    let p = PriceCandidate { label, amount_text: string_of(&amount) };
                    let ghost before = r@;
                    r.push(p);
                    assert(r@.map_values(|p: PriceCandidate| p@) == before.map_values(|p: PriceCandidate| p@).push(p@));
                }
            }
            assert(ev.take(v.len() as int) == ev);
        },
        None => {},
    }
    r
}

fn push_stat(stats: &mut Vec<BodyStat>, key: &str, els: &Option<Vec<HtmlElement>>)
    ensures
        final(stats)@.map_values(|b: BodyStat| b@) == old(stats)@.map_values(|b: BodyStat| b@)
            + stat_entry(key@, opt_elements(*els)),
{
    let ghost before = stats@;
    match first_text_exec(els) {
        Some(v) => {
            let b = BodyStat { key: key.to_string(), value: v };
            stats.push(b);
            assert(stats@.map_values(|b: BodyStat| b@) == before.map_values(|b: BodyStat| b@).push(b@));
        },
        None => {
            assert(stats@.map_values(|b: BodyStat| b@) == before.map_values(|b: BodyStat| b@) + Seq::<BodyStatView>::empty());
        },
    }
}

/// Height, weight, ethnicity, hair and eyes, each where the page gives it.
pub fn body_stats_exec(p: &ProfilePageParts) -> (r: Vec<BodyStat>)
    ensures
        r@.map_values(|b: BodyStat| b@) == body_stats_of(p@),
{
    let mut r: Vec<BodyStat> = Vec::new();
    assert(r@.map_values(|b: BodyStat| b@) == Seq::<BodyStatView>::empty());
    push_stat(&mut r, "height", &p.height);
    push_stat(&mut r, "weight", &p.weight);
    push_stat(&mut r, "ethnicity", &p.ethnicity);
    push_stat(&mut r, "hair", &p.hair);
    push_stat(&mut r, "eyes", &p.eyes);
    assert(Seq::<BodyStatView>::empty() + stat_entry("height"@, p@.height) == stat_entry("height"@, p@.height));
    r
}

/// An age read from the digits of a text.
pub fn age_exec(t: &String) -> (r: Option<i32>)
    ensures
        r == age_of(t@),
{
    let c = chars_of(t.as_str());
    let d = digits_of(&c);
    proof {
        lemma_ascii_digits_are_digits(t@);
    }
    parse_digits_i32(&d)
}

/// The site's id of a profile, from its URL.
pub fn source_id_exec(url: &String) -> (r: Option<String>)
    ensures
        opt_view(r) == source_id_of(url@),
{
    let c = chars_of(url.as_str());
    let segs = split_chars(&c, '/');
    proof {
        lemma_split_nonempty(url@, '/');
    }
    let seg = &segs[segs.len() - 1];
    assert(views(segs@)[segs.len() - 1] == seg@);
    let parts = split_chars(seg, '-');
    proof {
        lemma_split_nonempty(seg@, '-');
    }
    let id = &parts[parts.len() - 1];
    assert(views(parts@)[parts.len() - 1] == id@);
    let mut all = true;
    for i in 0..id.len()
        invariant
            all == (forall|j: int| 0 <= j < i ==> is_digit(#[trigger] id@[j])),
    {
        if !is_ascii_digit(id[i]) {
            all = false;
        }
    }
    if all && id.len() > 0 {
        Some(string_of(id))
    } else {
        None
    }
}

pub fn clone_strings(v: &Vec<String>) -> (r: Vec<String>)
    ensures
        string_views(r@) == string_views(v@),
{
    let mut r: Vec<String> = Vec::new();
    for i in 0..v.len()
        invariant
            r@.len() == i,
            forall|j: int| 0 <= j < i ==> (#[trigger] r@[j])@ == v@[j]@,
    {
        r.push(v[i].clone());
    }
    assert(string_views(r@) == string_views(v@));
    r
}

// ---------------------------------------------------------------------------
// Laws of page addresses, thumbnails and source ids
// ---------------------------------------------------------------------------

/// The listing URL of `city`: pages 0 and 1 are the bare city URL; from page 2 on the
/// page number follows as `?page=` in decimal.
pub proof fn lemma_listing_url_shape(city: Seq<char>, page: u32)
    ensures
        page <= 1 ==> listing_url_spec(city, page) == BASE_URL@ + "/acompanhantes/"@ + city,
        page >= 2 ==> listing_url_spec(city, page) == BASE_URL@ + "/acompanhantes/"@ + city
            + "?page="@ + decimal(page as nat),
{
}

/// Two different listing pages from page 1 on never share a URL, so every page that a
/// run asks for is a page of its own.
pub proof fn lemma_listing_urls_distinct(city: Seq<char>, p: u32, q: u32)
    requires
        1 <= p,
        1 <= q,
        p != q,
    ensures
        listing_url_spec(city, p) != listing_url_spec(city, q),
{
    reveal_strlit("?page=");
    let pre = BASE_URL@ + "/acompanhantes/"@ + city;
    let up = listing_url_spec(city, p);
    let uq = listing_url_spec(city, q);
    lemma_decimal_value(p as nat);
    lemma_decimal_value(q as nat);
    if p >= 2 && q >= 2 {
        if up == uq {
            let k: int = pre.len() as int + 6;
            assert(up.subrange(k, up.len() as int) =~= decimal(p as nat));
            assert(uq.subrange(k, uq.len() as int) =~= decimal(q as nat));
            lemma_decimal_injective(p as nat, q as nat);
        }
    } else {
        assert(up.len() != uq.len());
    }
}

/// A card's thumbnail is taken from the first image inside the card, in document
/// order: its `src`, or its `data-src` where it has no `src`. A card with no image, or
/// whose markup cannot be searched, has no thumbnail.
pub proof fn lemma_thumbnail_is_first_image(card_html: Seq<char>)
    ensures
        ({
            let imgs = css_select(card_html, "img"@, seq!["src"@, "data-src"@])->0;
            css_select(card_html, "img"@, seq!["src"@, "data-src"@]) is Some && imgs.len() > 0
                ==> first_image_source(card_html) == if imgs[0].attrs[0] is Some {
                imgs[0].attrs[0]
            } else {
                imgs[0].attrs[1]
            }
        }),
        ({
            let sel = css_select(card_html, "img"@, seq!["src"@, "data-src"@]);
            (sel is None || sel->0.len() == 0) ==> first_image_source(card_html) is None
        }),
{
}

/// A profile URL that ends in `-` and a run of digits has those digits as its source
/// id, whatever comes before.
pub proof fn lemma_source_id_trailing_digits(prefix: Seq<char>, digits: Seq<char>)
    requires
        digits.len() > 0,
        all_digits(digits),
    ensures
        source_id_of(prefix + seq!['-'] + digits) == Some(digits),
{
    let url = prefix + seq!['-'] + digits;
    assert forall|i: int| 0 <= i < digits.len() implies #[trigger] digits[i] != '/' && digits[i]
        != '-' by {
        assert(is_digit(digits[i]));
    }
    let dash = seq!['-'];
    assert forall|i: int| 0 <= i < dash.len() implies #[trigger] dash[i] != '/' by {}
    lemma_split_last_append(prefix + dash, digits, '/');
    lemma_split_last_append(prefix, dash, '/');
    let l = split_on(prefix, '/').last();
    let seg = split_on(url, '/').last();
    assert(seg == l + dash + digits);
    lemma_split_last_append(l + dash, digits, '-');
    lemma_split_nonempty(l, '-');
    assert((l + dash).drop_last() =~= l);
    assert(split_on(l + dash, '-').last() =~= Seq::<char>::empty());
    assert(split_on(seg, '-').last() =~= digits);
}

/// A source id is a non-empty run of digits that ends the profile URL.
pub proof fn lemma_source_id_shape(url: Seq<char>)
    ensures
        source_id_of(url) matches Some(d) ==> d.len() > 0 && all_digits(d) && ends_with(url, d),
{
    let seg = split_on(url, '/').last();
    let id = split_on(seg, '-').last();
    lemma_split_last_suffix(url, '/');
    lemma_split_last_suffix(seg, '-');
    if source_id_of(url) is Some {
        assert(url.subrange(url.len() - seg.len(), url.len() as int) == seg);
        assert(seg.subrange(seg.len() - id.len(), seg.len() as int) == id);
        assert(url.subrange(url.len() - id.len(), url.len() as int) =~= id);
    }
}

} // verus!
