//! What the Notflix API needs: subtitles and the proxy for streams.

pub mod proxy;
pub mod subtitles;
