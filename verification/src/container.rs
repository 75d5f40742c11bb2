pub mod isobmff;
