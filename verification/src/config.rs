//! Options of the HTTP client.

use hyper::client::Builder;
use vstd::prelude::*;

verus! {

/// `hyper::client::Builder`, the options that a hyper client is made with.
#[verifier::external_type_specification]
#[verifier::external_body]
pub struct ExBuilder(hyper::client::Builder);

/// The exact size that a builder gives to the read buffer of each connection,
/// where one is set.
pub uninterp spec fn exact_read_buf(builder: Builder) -> Option<usize>;

/// Whether each option of a builder is hyper's default.
pub uninterp spec fn has_default_options(builder: Builder) -> bool;

/// The builder that giving the read buffers an exact size makes of a builder.
pub uninterp spec fn with_exact_read_buf(builder: Builder, size: usize) -> Builder;

/// `hyper::Client::builder`: each option is hyper's default, so no exact size is
/// set. What the defaults are is not described here.
#[verifier::external_body]
fn new_builder() -> (builder: Builder)
    ensures
        has_default_options(builder),
        exact_read_buf(builder) == None::<usize>,
{
    hyper::Client::builder()
}

/// `Builder::http1_read_buf_exact_size`: the exact size is set, and what becomes
/// of the builder depends on what it was and on the size alone.
#[verifier::external_body]
fn set_exact_read_buf(builder: &mut Builder, size: usize)
    ensures
        *final(builder) == with_exact_read_buf(*old(builder), size),
        exact_read_buf(*final(builder)) == Some(size),
{
    builder.http1_read_buf_exact_size(size);
}

/// Whether a builder has the size of the read buffer that was set, if one was,
/// and is otherwise a builder with hyper's default options.
pub open spec fn configured(read_buf_size: Option<usize>, builder: Builder) -> bool {
    &&& exact_read_buf(builder) == read_buf_size
    &&& exists|fresh: Builder| #[trigger]
        has_default_options(fresh) && builder == match read_buf_size {
            Some(sz) => with_exact_read_buf(fresh, sz),
            None => fresh,
        }
}

/// A hyper client builder without any configuration.
pub fn default_client_builder() -> (builder: Builder)
    ensures
        has_default_options(builder),
        exact_read_buf(builder) == None::<usize>,
{
    new_builder()
}

/// Configuration options for the HTTP Client
#[derive(Debug)]
pub struct HttpConfig {
    read_buf_size: Option<usize>,
}

impl View for HttpConfig {
    type V = Option<usize>;

    /// The size of the read buffer, where one was set.
    closed spec fn view(&self) -> Option<usize> {
        self.read_buf_size
    }
}

impl HttpConfig {
    /// Create a new HttpConfig
    pub fn new() -> (config: HttpConfig)
        ensures
            config@ == None::<usize>,
    {
        HttpConfig { read_buf_size: None }
    }

    /// Sets the size of the read buffer for inbound data
    /// A larger buffer size might result in better performance
    /// by requiring fewer copies out of the socket buffer.
    pub fn read_buf_size(&mut self, sz: usize)
        ensures
            final(self)@ == Some(sz),
    {
        self.read_buf_size = Some(sz);
    }

    /// A hyper client builder with these options.
    pub fn client_builder(&self) -> (builder: Builder)
        ensures
            configured(self@, builder),
    {
        let mut builder: Builder = default_client_builder();
        let ghost fresh = builder;
        if let Some(sz) = self.read_buf_size {
            set_exact_read_buf(&mut builder, sz);
        }
        proof {
            assert(has_default_options(fresh));
        }
        builder
    }
}

impl Default for HttpConfig {
    /// Create a new HttpConfig. Same as HttpConfig::new().
    fn default() -> (config: HttpConfig)
        ensures
            config@ == None::<usize>,
    {
        HttpConfig::new()
    }
}

/// A configuration in which nothing was set is the same as none: the builder has
/// hyper's default options, all of them.
pub proof fn law_a_default_config_is_no_config(config: HttpConfig, builder: Builder)
    requires
        config@ is None,
        configured(config@, builder),
    ensures
        has_default_options(builder),
        exact_read_buf(builder) is None,
{
}

/// A size that was set is the exact size of the read buffers, whatever it is, and
/// it is set on a builder that is hyper's default in all else.
pub proof fn law_the_size_that_was_set_is_the_size(size: usize, builder: Builder) -> (fresh:
    Builder)
    requires
        configured(Some(size), builder),
    ensures
        exact_read_buf(builder) == Some(size),
        has_default_options(fresh),
        builder == with_exact_read_buf(fresh, size),
{
    choose|fresh: Builder| #[trigger]
        has_default_options(fresh) && builder == with_exact_read_buf(fresh, size)
}

} // verus!
