//! Documents: the post being built, its metadata with computed defaults, and
//! the finished post handed to the templating layer.
//!
//! Errors and warnings are collected as structured log events; the caller
//! prints them.  No error here is fatal: unsupplied metadata fields are filled
//! with defaults, and the defaults are logged as warnings.

use vstd::prelude::*;
use crate::datetime::{dt_epoch_seconds, epoch_seconds, Datetime};
use crate::meta::MetaFields;
use crate::strutil::string_from_chars;

verus! {

/// One log event of the pipeline; the caller turns it into a log line.
#[derive(Debug, PartialEq, Eq)]
pub enum LogLine {
    /// Warning: the post has no title; the file or directory name is used.
    DefaultTitle,
    /// Warning: the post has no date; the fallback date is used.
    DefaultDate,
    /// Warning: the post has no metadata block; defaults are used.
    DefaultMetadata,
    /// Info: a metadata block was read.
    MetadataRead,
    /// Error: a metadata block could not be parsed.
    MetadataError,
    /// Error: a nested block (named by the first text) held a token (named
    /// by the second) the stage could not read; the block is passed through
    /// unmodified.
    AccumulateError(String, String),
    /// Warning: syntax highlighting is not supported for this language.
    UnsupportedLanguage(String),
    /// Error: the highlighter failed on a supported language.
    HighlightError,
    /// Error: an image URL could not be parsed.
    ImageUrlError(String),
    /// Error: a relative image reference could not be resolved.
    ImageResolveError(String),
    /// Error: an SVG file is not text and could not be inlined.
    ImageReadError(String),
    /// Warning: SVG optimization failed; the file is inlined as it stands.
    SvgOptimizeWarning(String),
    /// Info: an SVG image was inlined.
    SvgInlined(String),
    /// Error: a raster image could not be decoded or re-encoded.
    TranscodeError(String),
    /// Info: a raster image was transcoded and stored.
    TranscodeInfo(String),
    /// Error: a math span could not be rendered; it is dropped.
    MathError,
}

/// Whether `post` is `pre` with exactly one event appended.
pub open spec fn logs_plus_one(pre: Seq<LogLine>, post: Seq<LogLine>) -> bool {
    post.len() == pre.len() + 1 && post.take(pre.len() as int) == pre
}

/// A document's metadata.
#[derive(Debug)]
pub struct PostMeta {
    pub title: String,
    pub date: Datetime,
    pub tags: Vec<String>,
    pub ghcomment: Option<(u32, Vec<String>)>,
}

/// A finished document: identifier, absolute age in seconds since the epoch,
/// rendered HTML body, and metadata.
#[derive(Debug)]
pub struct Post {
    pub age: i64,
    pub id: String,
    pub source: String,
    pub meta: PostMeta,
}

/// The document being built: its identity, its resolvable sibling files, the
/// metadata found so far, and the log events produced so far.
pub struct PostBuilder {
    /// The last path component of the source: the file name (with its
    /// extension) for a single-file post, the directory name otherwise.
    pub file_name: String,
    /// Whether the post is directory-backed (and can resolve relative paths).
    pub is_dir: bool,
    /// The resolvable sibling files: relative path and raw content.
    pub files: Vec<(String, Vec<u8>)>,
    /// The metadata found by the metadata stage, if any.
    pub meta: Option<PostMeta>,
    /// Stands for the file creation time; used when no date is supplied.
    pub fallback_date: Datetime,
    /// The log events produced so far.
    pub logs: Vec<LogLine>,
}

/// `s` with every `.md` suffix removed.
pub open spec fn trim_md(s: Seq<char>) -> Seq<char>
    decreases s.len(),
{
    if s.len() >= 3 && s.subrange(s.len() - 3, s.len() as int) == ".md"@ {
        trim_md(s.take(s.len() - 3))
    } else {
        s
    }
}

/// The identifier a builder derives from its file or directory name.
pub open spec fn spec_file_name(b: PostBuilder) -> Seq<char> {
    if b.is_dir {
        b.file_name@
    } else {
        trim_md(b.file_name@)
    }
}

/// The first file under `path`, if any.
pub open spec fn sp_lookup(files: Seq<(String, Vec<u8>)>, path: Seq<char>) -> Option<Seq<u8>>
    decreases files.len(),
{
    if files.len() == 0 {
        Option::None
    } else if files[0].0@ == path {
        Option::Some(files[0].1@)
    } else {
        sp_lookup(files.drop_first(), path)
    }
}

/// What resolving a relative path against a builder yields: a directory-backed
/// post resolves among its sibling files, any other post resolves nothing.
pub open spec fn spec_resolve(b: PostBuilder, path: Seq<char>) -> Option<Seq<u8>> {
    if b.is_dir {
        sp_lookup(b.files@, path)
    } else {
        Option::None
    }
}

impl PostBuilder {
    /// The identifier derived from the file or directory name: the directory
    /// name as it stands, or the file name with its `.md` suffix removed.
    pub fn get_file_name(&self) -> (r: String)
        ensures
            r@ == spec_file_name(*self),
    {
        let chars = crate::strutil::str_chars(self.file_name.as_str());
        if self.is_dir {
            return string_from_chars(&chars, 0, chars.len());
        }
        let mut n: usize = chars.len();
        proof {
            assert(chars@.take(n as int) =~= chars@);
        }
        while n >= 3 && chars[n - 3] == '.' && chars[n - 2] == 'm' && chars[n - 1] == 'd'
            invariant
                n <= chars@.len(),
                trim_md(self.file_name@) == trim_md(chars@.take(n as int)),
            decreases n,
        {
            proof {
                reveal_strlit(".md");
                let cur = chars@.take(n as int);
                assert(cur.subrange(n - 3, n as int) =~= ".md"@);
                assert(cur.take(n - 3) =~= chars@.take(n - 3));
            }
            n = n - 3;
        }
        proof {
            reveal_strlit(".md");
            let cur = chars@.take(n as int);
            if cur.len() >= 3 && cur.subrange(n - 3, n as int) == ".md"@ {
                assert(cur.subrange(n - 3, n as int)[0] == chars@[n - 3]);
                assert(cur.subrange(n - 3, n as int)[1] == chars@[n - 2]);
                assert(cur.subrange(n - 3, n as int)[2] == chars@[n - 1]);
            }
            assert(trim_md(cur) == cur);
            assert(chars@.take(n as int) =~= chars@.subrange(0, n as int));
        }
        string_from_chars(&chars, 0, n)
    }

    /// The default title: the file or directory name, with a warning logged.
    pub fn get_default_title(&mut self) -> (r: String)
        ensures
            r@ == spec_file_name(*old(self)),
            final(self).logs@ == old(self).logs@.push(LogLine::DefaultTitle),
            final(self).file_name == old(self).file_name,
            final(self).is_dir == old(self).is_dir,
            final(self).files == old(self).files,
            final(self).meta == old(self).meta,
            final(self).fallback_date == old(self).fallback_date,
    {
        self.logs.push(LogLine::DefaultTitle);
        self.get_file_name()
    }

    /// The default date: the fallback date (standing for the file creation
    /// time), with a warning logged.
    pub fn get_default_date(&mut self) -> (r: Datetime)
        ensures
            r == old(self).fallback_date,
            final(self).logs@ == old(self).logs@.push(LogLine::DefaultDate),
            final(self).file_name == old(self).file_name,
            final(self).is_dir == old(self).is_dir,
            final(self).files == old(self).files,
            final(self).meta == old(self).meta,
            final(self).fallback_date == old(self).fallback_date,
    {
        self.logs.push(LogLine::DefaultDate);
        self.fallback_date
    }

    /// Wholly default metadata: derived title and date, no tags, no comment
    /// reference; each default is logged as a warning.
    pub fn default_metadata(&mut self) -> (r: PostMeta)
        ensures
            r.title@ == spec_file_name(*old(self)),
            r.date == old(self).fallback_date,
            r.tags@.len() == 0,
            r.ghcomment is None,
            final(self).logs@ == old(self).logs@ + seq![
                LogLine::DefaultTitle,
                LogLine::DefaultDate,
                LogLine::DefaultMetadata,
            ],
            final(self).file_name == old(self).file_name,
            final(self).is_dir == old(self).is_dir,
            final(self).files == old(self).files,
            final(self).meta == old(self).meta,
            final(self).fallback_date == old(self).fallback_date,
    {
        let title = self.get_default_title();
        let date = self.get_default_date();
        self.logs.push(LogLine::DefaultMetadata);
        PostMeta { title, date, tags: Vec::new(), ghcomment: None }
    }

    /// Resolves a relative path among the post's sibling files, returning the
    /// index of the matching file.
    pub fn resolve_file(&self, path: &str) -> (r: Option<usize>)
        ensures
            match r {
                Option::Some(i) => {
                    &&& i < self.files@.len()
                    &&& self.files@[i as int].0@ == path@
                    &&& spec_resolve(*self, path@) == Option::Some(self.files@[i as int].1@)
                },
                Option::None => spec_resolve(*self, path@) is None,
            },
    {
        if !self.is_dir {
            return None;
        }
        let mut i: usize = 0;
        proof {
            assert(self.files@.skip(0) =~= self.files@);
        }
        while i < self.files.len()
            invariant
                self.is_dir,
                i <= self.files@.len(),
                sp_lookup(self.files@, path@) == sp_lookup(self.files@.skip(i as int), path@),
            decreases self.files@.len() - i,
        {
            proof {
                assert(self.files@.skip(i as int)[0] == self.files@[i as int]);
                assert(self.files@.skip(i as int).drop_first() =~= self.files@.skip(i + 1));
            }
            if crate::strutil::str_eq(self.files[i].0.as_str(), path) {
                proof {
                    assert(sp_lookup(self.files@.skip(i as int), path@) == Option::Some(
                        self.files@.skip(i as int)[0].1@,
                    ));
                }
                return Some(i);
            }
            i = i + 1;
        }
        None
    }

    /// Turns parsed metadata fields into the post's metadata: missing title
    /// and date fall back to defaults (logged), tags default to empty, and
    /// the comment reference exists only if both its parts were supplied.
    pub fn apply_meta_fields(&mut self, fields: MetaFields)
        ensures
            final(self).meta matches Option::Some(m) && {
                &&& match fields.title {
                    Option::Some(t) => m.title == t,
                    Option::None => m.title@ == spec_file_name(*old(self)),
                }
                &&& match fields.date {
                    Option::Some(d) => m.date == d,
                    Option::None => m.date == old(self).fallback_date,
                }
                &&& match fields.tags {
                    Option::Some(t) => m.tags == t,
                    Option::None => m.tags@.len() == 0,
                }
                &&& m.ghcomment == match (fields.ghcommentid, fields.ghcommentauthors) {
                    (Option::Some(id), Option::Some(a)) => Option::Some((id, a)),
                    _ => Option::None::<(u32, Vec<String>)>,
                }
            },
            final(self).logs@ == old(self).logs@ + (match fields.title {
                Option::Some(_) => Seq::<LogLine>::empty(),
                Option::None => seq![LogLine::DefaultTitle],
            }) + (match fields.date {
                Option::Some(_) => Seq::<LogLine>::empty(),
                Option::None => seq![LogLine::DefaultDate],
            }) + seq![LogLine::MetadataRead],
            final(self).file_name == old(self).file_name,
            final(self).is_dir == old(self).is_dir,
            final(self).files == old(self).files,
            final(self).fallback_date == old(self).fallback_date,
    {
        let title = match fields.title {
            Some(t) => t,
            None => self.get_default_title(),
        };
        let date = match fields.date {
            Some(d) => d,
            None => self.get_default_date(),
        };
        let tags = match fields.tags {
            Some(t) => t,
            None => Vec::new(),
        };
        let ghcomment = match (fields.ghcommentid, fields.ghcommentauthors) {
            (Some(id), Some(a)) => Some((id, a)),
            _ => None,
        };
        self.logs.push(LogLine::MetadataRead);
        self.meta = Some(PostMeta { title, date, tags, ghcomment });
    }

    /// Finishes the document: metadata defaults are filled in if no metadata
    /// block was seen, and the age is computed from the effective date.  The
    /// rendered body is taken as given.  Returns the post and the log events.
    pub fn build(self, source: String) -> (r: (Post, Vec<LogLine>))
        ensures
            r.0.id@ == spec_file_name(self),
            r.0.source == source,
            r.0.age as int == epoch_seconds(r.0.meta.date),
            match self.meta {
                Option::Some(m) => r.0.meta == m && r.1@ == self.logs@,
                Option::None => {
                    &&& r.0.meta.title@ == spec_file_name(self)
                    &&& r.0.meta.date == self.fallback_date
                    &&& r.0.meta.tags@.len() == 0
                    &&& r.0.meta.ghcomment is None
                    &&& r.1@ == self.logs@ + seq![
                        LogLine::DefaultTitle,
                        LogLine::DefaultDate,
                        LogLine::DefaultMetadata,
                    ]
                },
            },
    {
        let mut b = self;
        let id = b.get_file_name();
        let taken = b.meta.take();
        let meta = match taken {
            Some(m) => m,
            None => b.default_metadata(),
        };
        let age = dt_epoch_seconds(&meta.date);
        (Post { age, id, source, meta }, b.logs)
    }
}

} // verus!
