use vstd::prelude::*;

verus! {

/// What a `CardRating` stands for.
pub struct CardRatingView {
    pub format: Seq<char>,
    pub name: Seq<char>,
    pub rating: Seq<char>,
}

/// The rating of one card in one version of the draft format.
#[derive(Debug)]
pub struct CardRating {
    pub format: String,
    pub name: String,
    pub rating: String,
}

impl View for CardRating {
    type V = CardRatingView;

    open spec fn view(&self) -> CardRatingView {
        CardRatingView { format: self.format@, name: self.name@, rating: self.rating@ }
    }
}

impl Clone for CardRating {
    fn clone(&self) -> (r: Self)
        ensures
            r@ == self@,
    {
        CardRating {
            format: self.format.clone(),
            name: self.name.clone(),
            rating: self.rating.clone(),
        }
    }
}

} // verus!
