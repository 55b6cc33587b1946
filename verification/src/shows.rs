use vstd::prelude::*;

verus! {

/// A show: a folder of videos, with the name shown for it and, once it is
/// loaded, its thumbnail. `P` locates the folder; `T` is a loaded image.
#[derive(Clone)]
pub struct Show<P, T> {
    pub name: String,
    pub path: P,
    pub thumbnail: Option<T>,
}

/// What a show stands for in contracts.
pub struct ShowView<P, T> {
    pub name: Seq<char>,
    pub path: P,
    pub thumbnail: Option<T>,
}

impl<P, T> View for Show<P, T> {
    type V = ShowView<P, T>;

    open spec fn view(&self) -> ShowView<P, T> {
        ShowView { name: self.name@, path: self.path, thumbnail: self.thumbnail }
    }
}

impl<P, T> Show<P, T> {
    /// The show for the folder at `path`, named after the folder's file
    /// name; `file_name` is that name where the path has one and it is valid
    /// UTF-8. Without a name there is no show. A new show has no thumbnail.
    pub fn new(path: P, file_name: Option<&str>) -> (show: Option<Self>)
        ensures
            match file_name {
                Some(name) => show matches Some(s) && s@ == (ShowView::<P, T> {
                    name: name@,
                    path,
                    thumbnail: None,
                }),
                None => show is None,
            },
    {
        match file_name {
            Some(name) => Some(Show { name: name.to_owned(), path, thumbnail: None }),
            None => None,
        }
    }
}

} // verus!
