//! Records of the catalog, their columns and the values bound to them.

use vstd::prelude::*;

verus! {

/// A single-precision number, held by its IEEE-754 bit pattern.
#[derive(Clone, Copy, Debug, PartialEq, Eq)]
pub struct Real {
    pub bits: u32,
}

/// A full catalog entry.
#[derive(Clone, Debug, PartialEq)]
pub struct Movie {
    pub id: i64,
    pub budget: i64,
    pub revenue: i64,
    pub vote_count: i64,
    pub popularity: Real,
    pub vote_average: Real,
    pub genres: String,
    pub title: String,
    pub keywords: String,
    pub overview: String,
    pub release_date: String,
}

/// The mathematical value of a [`Movie`].
pub struct MovieView {
    pub id: i64,
    pub budget: i64,
    pub revenue: i64,
    pub vote_count: i64,
    pub popularity: Real,
    pub vote_average: Real,
    pub genres: Seq<char>,
    pub title: Seq<char>,
    pub keywords: Seq<char>,
    pub overview: Seq<char>,
    pub release_date: Seq<char>,
}

impl View for Movie {
    type V = MovieView;

    open spec fn view(&self) -> MovieView {
        MovieView {
            id: self.id,
            budget: self.budget,
            revenue: self.revenue,
            vote_count: self.vote_count,
            popularity: self.popularity,
            vote_average: self.vote_average,
            genres: self.genres@,
            title: self.title@,
            keywords: self.keywords@,
            overview: self.overview@,
            release_date: self.release_date@,
        }
    }
}

/// A sparse update: an absent field is left as it is. The identifier is
/// not among the fields, so no update can set it.
#[derive(Clone, Debug, PartialEq)]
pub struct PartialMovie {
    pub budget: Option<i64>,
    pub revenue: Option<i64>,
    pub vote_count: Option<i64>,
    pub popularity: Option<Real>,
    pub vote_average: Option<Real>,
    pub genres: Option<String>,
    pub title: Option<String>,
    pub keywords: Option<String>,
    pub overview: Option<String>,
    pub release_date: Option<String>,
}

/// The mathematical value of a [`PartialMovie`].
pub struct PartialMovieView {
    pub budget: Option<i64>,
    pub revenue: Option<i64>,
    pub vote_count: Option<i64>,
    pub popularity: Option<Real>,
    pub vote_average: Option<Real>,
    pub genres: Option<Seq<char>>,
    pub title: Option<Seq<char>>,
    pub keywords: Option<Seq<char>>,
    pub overview: Option<Seq<char>>,
    pub release_date: Option<Seq<char>>,
}

/// The text behind an optional string.
pub open spec fn text_view(text: Option<String>) -> Option<Seq<char>> {
    match text {
        Some(s) => Some(s@),
        None => None,
    }
}

impl View for PartialMovie {
    type V = PartialMovieView;

    open spec fn view(&self) -> PartialMovieView {
        PartialMovieView {
            budget: self.budget,
            revenue: self.revenue,
            vote_count: self.vote_count,
            popularity: self.popularity,
            vote_average: self.vote_average,
            genres: text_view(self.genres),
            title: text_view(self.title),
            keywords: text_view(self.keywords),
            overview: text_view(self.overview),
            release_date: text_view(self.release_date),
        }
    }
}

impl PartialMovieView {
    /// The record that results when the fields present here replace those
    /// of `movie`; the identifier and the absent fields stay.
    pub open spec fn overlay(self, movie: MovieView) -> MovieView {
        MovieView {
            id: movie.id,
            budget: if let Some(v) = self.budget { v } else { movie.budget },
            revenue: if let Some(v) = self.revenue { v } else { movie.revenue },
            vote_count: if let Some(v) = self.vote_count { v } else { movie.vote_count },
            popularity: if let Some(v) = self.popularity { v } else { movie.popularity },
            vote_average: if let Some(v) = self.vote_average { v } else { movie.vote_average },
            genres: if let Some(v) = self.genres { v } else { movie.genres },
            title: if let Some(v) = self.title { v } else { movie.title },
            keywords: if let Some(v) = self.keywords { v } else { movie.keywords },
            overview: if let Some(v) = self.overview { v } else { movie.overview },
            release_date: if let Some(v) = self.release_date { v } else { movie.release_date },
        }
    }
}

/// The views of a sequence of records, in the same order.
pub open spec fn movie_views(movies: Seq<Movie>) -> Seq<MovieView> {
    movies.map_values(|m: Movie| m@)
}

} // verus!
