use vstd::prelude::*;

verus! {

/// A timestamped provenance event appended at the tail of a product's
/// stage sequence. The three sub-scores are normalized to the 8-bit
/// range 0..=255.
pub struct Stage {
    pub title: String,
    pub summary: String,
    pub location: String,
    pub date: u64,
    pub administrator: String,
    pub climate: u8,
    pub community: u8,
    pub nature: u8,
}

/// The raw score mass a stage contributes to its product's composite
/// score: the sum of the three sub-scores. The stage's own mean is
/// this value divided by three.
pub open spec fn stage_points(s: Stage) -> int {
    s.climate + s.community + s.nature
}

impl Clone for Stage {
    fn clone(&self) -> (r: Self)
        ensures
            r == *self,
    {
        Stage {
            title: self.title.clone(),
            summary: self.summary.clone(),
            location: self.location.clone(),
            date: self.date,
            administrator: self.administrator.clone(),
            climate: self.climate,
            community: self.community,
            nature: self.nature,
        }
    }
}

impl Stage {
    pub fn new(
        title: String,
        summary: String,
        location: String,
        date: u64,
        administrator: String,
        climate: u8,
        community: u8,
        nature: u8,
    ) -> (r: Self)
        ensures
            r == (Stage {
                title: title,
                summary: summary,
                location: location,
                date: date,
                administrator: administrator,
                climate: climate,
                community: community,
                nature: nature,
            }),
    {
        Stage { title, summary, location, date, administrator, climate, community, nature }
    }
}

} // verus!
