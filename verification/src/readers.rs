pub mod exif;
pub mod movie_boxes;
pub mod video;
