use vstd::prelude::*;

verus! {

/// A brand record. The publisher identity is captured at creation and is
/// immutable afterwards: only that identity may update or delete the record.
pub struct Brand {
    pub image: String,
    pub title: String,
    pub summary: String,
    pub industry: String,
    pub region: String,
    pub publisher: String,
}

impl Clone for Brand {
    fn clone(&self) -> (r: Self)
        ensures
            r == *self,
    {
        Brand {
            image: self.image.clone(),
            title: self.title.clone(),
            summary: self.summary.clone(),
            industry: self.industry.clone(),
            region: self.region.clone(),
            publisher: self.publisher.clone(),
        }
    }
}

/// Caller-facing equality compares titles only; it is a dedup check, not
/// identity, and nothing else may be concluded from it.
impl PartialEq for Brand {
    fn eq(&self, other: &Self) -> (r: bool) {
        self.title == other.title
    }
}

impl vstd::std_specs::cmp::PartialEqSpecImpl for Brand {
    open spec fn obeys_eq_spec() -> bool {
        true
    }

    open spec fn eq_spec(&self, other: &Brand) -> bool {
        self.title@ == other.title@
    }
}

impl Default for Brand {
    fn default() -> (r: Self)
        ensures
            r.image@ == Seq::<char>::empty(),
            r.title@ == Seq::<char>::empty(),
            r.summary@ == Seq::<char>::empty(),
            r.industry@ == Seq::<char>::empty(),
            r.region@ == Seq::<char>::empty(),
            r.publisher@ == Seq::<char>::empty(),
    {
        Brand {
            image: String::new(),
            title: String::new(),
            summary: String::new(),
            industry: String::new(),
            region: String::new(),
            publisher: String::new(),
        }
    }
}

impl Brand {
    pub fn new(
        image: String,
        title: String,
        summary: String,
        industry: String,
        region: String,
        publisher: String,
    ) -> (r: Self)
        ensures
            r == (Brand {
                image: image,
                title: title,
                summary: summary,
                industry: industry,
                region: region,
                publisher: publisher,
            }),
    {
        Brand { image, title, summary, industry, region, publisher }
    }
}

} // verus!
