//! Loader for a declarative 2D tile-map document format: resolves packed
//! per-cell identifiers against an ordered tileset table, decodes layer
//! payloads (csv or base64, optionally compressed), parses typed property
//! values, and shares external tileset/template resources through a
//! caller-supplied cache.

pub mod error;
pub mod text;
pub mod xml;
pub mod data;
pub mod properties;
pub mod cache;
pub mod animation;
pub mod wangset;
pub mod image;
pub mod map;
pub mod util;
pub mod gid;
pub mod tileset;
pub mod template;
pub mod objects;

pub use animation::Frame;
pub use cache::{ResourceCache, ResourceReader};
pub use error::Error;
pub use gid::{Gid, LayerTileData, MapTilesetGid};
pub use image::{Image, ImageLayerData};
pub use map::{parse_map, TiledMap};
pub use objects::{Object, ObjectData, ObjectLayer, ObjectLayerData};
pub use properties::{Color, Properties, PropertyValue};
pub use template::Template;
pub use tileset::{parse_tileset, Tileset};
pub use util::floor_div;
pub use wangset::{WangColor, WangSet, WangSetType, WangTile};
