//! The image boards a run can search.

pub mod danbooru;
pub mod e621;
pub mod gelbooru;
pub mod rule34;
pub mod yandere;
