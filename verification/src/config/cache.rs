//! Rendered images, kept by their hash.

use vstd::prelude::*;
use vstd::string::StringExecFns;
use crate::config::helio::Helio;
use crate::util::numeral::{decimal, push_decimal};
use crate::util::table::Table;
use crate::util::text::string_of;

verus! {

/// A rendered image and the hash that it is found by.
pub struct Image {
    pub data: String,
    pub hash: String,
}

impl Image {
    /// An image with its hash.
    pub fn new(data: String, hash: String) -> (image: Image)
        ensures
            image.data == data,
            image.hash == hash,
    {
        Image { data, hash }
    }

    /// The rendered image.
    pub fn get_data(&self) -> (data: &String)
        ensures
            *data == self.data,
    {
        &self.data
    }
}

/// The rendered images that were found, by hash, with the store that they
/// were rendered for.
pub struct Cache {
    pub config: Helio,
    pub images: Table<Image>,
    pub size: usize,
}

/// The images of `found[..upto]` by their hash; of two images with one hash
/// the later stands.
pub open spec fn by_hash(found: Seq<Image>, upto: int) -> Map<Seq<char>, Image>
    decreases upto,
{
    if upto <= 0 || upto > found.len() {
        Map::empty()
    } else {
        by_hash(found, upto - 1).insert(found[upto - 1].hash@, found[upto - 1])
    }
}

impl Cache {
    /// A cache of the images that were found: each under its hash, and as
    /// its size the number of images found.
    pub fn of(config: Helio, found: Vec<Image>) -> (cache: Self)
        ensures
            cache.config == config,
            cache.size == found@.len(),
            cache.images@ == by_hash(found@, found@.len() as int),
    {
        let mut images: Table<Image> = Table::new();
        let mut size: usize = 0;
        let mut found = found;
        let ghost all = found@;
        let total = found.len();
        let mut rest: Vec<Image> = Vec::new();
        // The images are taken from the end; `rest` holds them in reverse.
        while found.len() > 0
            invariant
                all.len() == total,
                found@.len() + rest@.len() == all.len(),
                forall|j: int| 0 <= j < found@.len() ==> found@[j] == all[j],
                forall|j: int|
                    0 <= j < rest@.len() ==> #[trigger] rest@[j] == all[all.len() - 1 - j],
            decreases found@.len(),
        {
            let image = found.pop().unwrap();
            rest.push(image);
        }
        while rest.len() > 0
            invariant
                all.len() == total,
                size + rest@.len() == all.len(),
                forall|j: int|
                    0 <= j < rest@.len() ==> #[trigger] rest@[j] == all[all.len() - 1 - j],
                images@ == by_hash(all, size as int),
            decreases rest@.len(),
        {
            let image = rest.pop().unwrap();
            assert(image == all[size as int]);
            let hash = image.hash.clone();
            images.insert(hash.as_str(), image);
            size += 1;
        }
        Self { size, images, config }
    }

    /// The image with this hash.
    pub fn get(&self, hash: String) -> (r: Option<&Image>)
        ensures
            match r {
                Some(image) => self.images@.contains_key(hash@) && *image == self.images@[hash@],
                None => !self.images@.contains_key(hash@),
            },
    {
        self.images.get(hash.as_str())
    }

    /// Whether there is an image with this hash.
    pub fn contains(&self, hash: String) -> (r: bool)
        ensures
            r == self.images@.contains_key(hash@),
    {
        self.images.contains_key(hash.as_str())
    }
}

/// What an image is found by in the cache: the length of its file, the size
/// it is rendered at, and the name of the filter, one behind the other.
pub open spec fn hash_text(length: u64, size: u32, filter: Seq<char>) -> Seq<char> {
    decimal(length as nat) + decimal(size as nat) + filter
}

/// What an image is found by in the cache.
pub fn fake_hash(length: u64, size: u32, filter: &str) -> (out: String)
    ensures
        out@ == hash_text(length, size, filter@),
{
    let mut digits: Vec<char> = Vec::new();
    push_decimal(&mut digits, length as u128);
    push_decimal(&mut digits, size as u128);
    let mut out = string_of(&digits);
    out.append(filter);
    assert(out@ == Seq::<char>::empty() + decimal(length as nat) + decimal(size as nat) + filter@);
    assert(Seq::<char>::empty() + decimal(length as nat) == decimal(length as nat));
    out
}

} // verus!
