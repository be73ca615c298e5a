//! The records that pass between the crawler, the normalizers and storage.

use vstd::prelude::*;

verus! {

pub open spec fn opt_view(o: Option<String>) -> Option<Seq<char>> {
    match o {
        Some(s) => Some(s@),
        None => None,
    }
}

pub open spec fn string_views(v: Seq<String>) -> Seq<Seq<char>> {
    v.map_values(|s: String| s@)
}

pub fn clone_opt_string(o: &Option<String>) -> (r: Option<String>)
    ensures
        opt_view(r) == opt_view(*o),
{
    match o {
        Some(s) => Some(s.clone()),
        None => None,
    }
}

/// Stub returned from a listing page — enough to navigate to the full profile.
#[derive(Debug)]
pub struct ProfileStub {
    pub name: String,
    pub url: String,
    pub thumbnail_url: Option<String>,
    pub city: String,
}

pub struct ProfileStubView {
    pub name: Seq<char>,
    pub url: Seq<char>,
    pub thumbnail_url: Option<Seq<char>>,
    pub city: Seq<char>,
}

impl View for ProfileStub {
    type V = ProfileStubView;

    open spec fn view(&self) -> ProfileStubView {
        ProfileStubView {
            name: self.name@,
            url: self.url@,
            thumbnail_url: opt_view(self.thumbnail_url),
            city: self.city@,
        }
    }
}

impl ProfileStub {
    /// A copy of this stub, field for field.
    pub fn duplicate(&self) -> (r: ProfileStub)
        ensures
            r@ == self@,
    {
        ProfileStub {
            name: self.name.clone(),
            url: self.url.clone(),
            thumbnail_url: clone_opt_string(&self.thumbnail_url),
            city: self.city.clone(),
        }
    }
}

pub open spec fn stub_views(v: Seq<ProfileStub>) -> Seq<ProfileStubView> {
    v.map_values(|s: ProfileStub| s@)
}

/// A price as it stands on a profile page: the element's class (or `price`) as its
/// label, and the text left once the currency sign and thousands separators are
/// gone and the decimal comma is a point. Reading the amount as a number is left
/// to the caller.
#[derive(Debug)]
pub struct PriceCandidate {
    pub label: String,
    pub amount_text: String,
}

pub struct PriceCandidateView {
    pub label: Seq<char>,
    pub amount_text: Seq<char>,
}

impl View for PriceCandidate {
    type V = PriceCandidateView;

    open spec fn view(&self) -> PriceCandidateView {
        PriceCandidateView { label: self.label@, amount_text: self.amount_text@ }
    }
}

/// One body statistic found on a profile page (`height`, `weight`, ...).
#[derive(Debug)]
pub struct BodyStat {
    pub key: String,
    pub value: String,
}

pub struct BodyStatView {
    pub key: Seq<char>,
    pub value: Seq<char>,
}

impl View for BodyStat {
    type V = BodyStatView;

    open spec fn view(&self) -> BodyStatView {
        BodyStatView { key: self.key@, value: self.value@ }
    }
}

/// Raw data scraped from a single profile page before normalization.
///
/// `scraped_at_micros` is the scrape time in microseconds since the Unix epoch.
#[derive(Debug)]
pub struct ScrapedProfile {
    pub source_url: String,
    pub source_id: Option<String>,
    pub site: String,
    pub name: String,
    pub city: String,
    pub state: Option<String>,
    pub age: Option<i32>,
    pub phone: Option<String>,
    pub bio: Option<String>,
    pub services: Vec<String>,
    pub pricing: Vec<PriceCandidate>,
    pub body_stats: Vec<BodyStat>,
    pub photo_urls: Vec<String>,
    pub scraped_at_micros: i64,
}

pub struct ScrapedProfileView {
    pub source_url: Seq<char>,
    pub source_id: Option<Seq<char>>,
    pub site: Seq<char>,
    pub name: Seq<char>,
    pub city: Seq<char>,
    pub state: Option<Seq<char>>,
    pub age: Option<i32>,
    pub phone: Option<Seq<char>>,
    pub bio: Option<Seq<char>>,
    pub services: Seq<Seq<char>>,
    pub pricing: Seq<PriceCandidateView>,
    pub body_stats: Seq<BodyStatView>,
    pub photo_urls: Seq<Seq<char>>,
    pub scraped_at_micros: i64,
}

impl View for ScrapedProfile {
    type V = ScrapedProfileView;

    open spec fn view(&self) -> ScrapedProfileView {
        ScrapedProfileView {
            source_url: self.source_url@,
            source_id: opt_view(self.source_id),
            site: self.site@,
            name: self.name@,
            city: self.city@,
            state: opt_view(self.state),
            age: self.age,
            phone: opt_view(self.phone),
            bio: opt_view(self.bio),
            services: string_views(self.services@),
            pricing: self.pricing@.map_values(|p: PriceCandidate| p@),
            body_stats: self.body_stats@.map_values(|b: BodyStat| b@),
            photo_urls: string_views(self.photo_urls@),
            scraped_at_micros: self.scraped_at_micros,
        }
    }
}

} // verus!
