pub mod bp;
pub mod codec;
pub mod jsontext;
pub mod qr;
pub mod trains;
