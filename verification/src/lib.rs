pub mod audio;
pub mod baidu;
pub mod chatgpt;
pub mod iciba;
pub mod json;
pub mod output;
pub mod select;
pub mod strutil;
pub mod xml;
