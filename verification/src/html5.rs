//! HTML5 `<picture>` tags for the converted images.

use vstd::prelude::*;

use crate::path::{
    create_output_file_name_with_output_dir,
    directory,
    directory_of,
    join,
    joined,
    output_file_name_in,
    with_extension,
    with_extension_of,
};
use crate::pipeline::Config;
use crate::utils::resized_image_details::{derivatives, planning, Derivative, ResizedImageDetails};
use crate::utils::text::{decimal, to_decimal};

verus! {

/// Contains information about the media width property of a `<source>` that
/// is required for its creation.
#[derive(Debug)]
pub enum MediaWidth {
    Max(String),
    Min(String),
}

/// A media width as the contracts speak of it.
pub enum MediaWidthView {
    Max(Seq<char>),
    Min(Seq<char>),
}

impl View for MediaWidth {
    type V = MediaWidthView;

    open spec fn view(&self) -> MediaWidthView {
        match *self {
            MediaWidth::Max(value) => MediaWidthView::Max(value@),
            MediaWidth::Min(value) => MediaWidthView::Min(value@),
        }
    }
}

/// Information about the source attributes in a `<picture>` tag.
#[derive(Debug)]
pub struct SourceAttributes {
    pub media_width: MediaWidth,
    pub srcset: String,
}

/// Source attributes as the contracts speak of them.
pub struct SourceView {
    pub media_width: MediaWidthView,
    pub srcset: Seq<char>,
}

impl View for SourceAttributes {
    type V = SourceView;

    open spec fn view(&self) -> SourceView {
        SourceView { media_width: self.media_width@, srcset: self.srcset@ }
    }
}

/// The sources that a sequence of source attributes stands for.
pub open spec fn source_views(sources: Seq<SourceAttributes>) -> Seq<SourceView> {
    sources.map_values(|s: SourceAttributes| s@)
}

/// Represents the HTML5 `<picture>` tag.
#[derive(Debug)]
pub struct Picture {
    /// Contains the `<source>` tags of the picture.
    pub sources: Vec<SourceAttributes>,
    /// Specifies the fallback uri of the picture.
    pub fallback_uri: String,
}

/// A picture as the contracts speak of it.
pub struct PictureView {
    pub sources: Seq<SourceView>,
    pub fallback_uri: Seq<char>,
}

impl View for Picture {
    type V = PictureView;

    open spec fn view(&self) -> PictureView {
        PictureView { sources: source_views(self.sources@), fallback_uri: self.fallback_uri@ }
    }
}

/// The message of the error for a picture without scaled images.
pub open spec fn no_scales_message() -> Seq<char> {
    "scaled_images_count must be > 0"@
}

/// The source of the scaled derivative: it serves up to the derivative's
/// width and lies beside the image.
pub open spec fn scaled_source(dir: Seq<char>, derivative: Derivative) -> SourceView {
    SourceView {
        media_width: MediaWidthView::Max(decimal(derivative.width)),
        srcset: joined(dir, derivative.file_name),
    }
}

/// The sources of the scaled derivatives of a plan, narrowest first.
pub open spec fn scaled_sources(dir: Seq<char>, plan: Seq<Derivative>) -> Seq<SourceView> {
    Seq::new(plan.len(), |i: int| scaled_source(dir, plan[i]))
}

/// The source of the full-scale derivative: it serves from one pixel above
/// the widest scaled derivative.
pub open spec fn full_scale_source(image_file_name: Seq<char>, widest: Derivative) -> SourceView {
    SourceView {
        media_width: MediaWidthView::Min(decimal(widest.width + 1)),
        srcset: with_extension_of(image_file_name, "webp"@),
    }
}

/// The picture of an image: a source for each scaled derivative, narrowest
/// first, then the source of the full-scale derivative; the image itself is
/// the fallback. A picture needs a scaled derivative, and a plan.
pub open spec fn picture_of(
    image_file_name: Seq<char>,
    source_width: nat,
    source_height: nat,
    scale_count: nat,
) -> Result<PictureView, Seq<char>> {
    if scale_count == 0 {
        Err(no_scales_message())
    } else {
        match planning(image_file_name, source_width, source_height, scale_count) {
            Ok(plan) => Ok(
                PictureView {
                    sources: scaled_sources(directory_of(image_file_name), plan).push(
                        full_scale_source(image_file_name, plan.last()),
                    ),
                    fallback_uri: image_file_name,
                },
            ),
            Err(failure) => Err(failure.message),
        }
    }
}

/// What the making of a picture stands for.
pub open spec fn picture_result_view(r: Result<Picture, String>) -> Result<
    PictureView,
    Seq<char>,
> {
    match r {
        Ok(picture) => Ok(picture@),
        Err(message) => Err(message@),
    }
}

/// What is put before every uri of a tag: the prefix and a slash, or
/// nothing.
pub open spec fn uri_prefix(srcset_prefix: Option<Seq<char>>) -> Seq<char> {
    match srcset_prefix {
        Some(prefix) => prefix + "/"@,
        None => Seq::empty(),
    }
}

/// The `<source>` tag of a source.
pub open spec fn source_tag(prefix: Seq<char>, source: SourceView) -> Seq<char> {
    "<source media=\"("@ + match source.media_width {
        MediaWidthView::Max(value) => "max"@ + "-width: "@ + value,
        MediaWidthView::Min(value) => "min"@ + "-width: "@ + value,
    } + "px)\" srcset=\""@ + prefix + source.srcset + "\">"@
}

/// The `<source>` tags of a sequence of sources, one after the other.
pub open spec fn source_tags(prefix: Seq<char>, sources: Seq<SourceView>) -> Seq<char>
    decreases sources.len(),
{
    if sources.len() == 0 {
        Seq::empty()
    } else {
        source_tags(prefix, sources.drop_last()) + source_tag(prefix, sources.last())
    }
}

/// The `<img>` tag of the fallback image.
pub open spec fn fallback_tag(prefix: Seq<char>, fallback_uri: Seq<char>, alt_text: Seq<char>) -> Seq<
    char,
> {
    "<img src=\""@ + prefix + fallback_uri + "\" alt=\""@ + alt_text + "\" />"@
}

/// The full `<picture>` tag.
pub open spec fn picture_tag(
    picture: PictureView,
    srcset_prefix: Option<Seq<char>>,
    alt_text: Seq<char>,
) -> Seq<char> {
    "<picture>"@ + source_tags(uri_prefix(srcset_prefix), picture.sources) + fallback_tag(
        uri_prefix(srcset_prefix),
        picture.fallback_uri,
        alt_text,
    ) + "</picture>"@
}

/// The sources with every uri moved from the input directory to the
/// mountpoint, or the error of the first source that does not lie under the
/// input directory.
pub open spec fn mounted_sources(
    mountpoint: Seq<char>,
    input_dir: Seq<char>,
    sources: Seq<SourceView>,
) -> Result<Seq<SourceView>, Seq<char>>
    decreases sources.len(),
{
    if sources.len() == 0 {
        Ok(Seq::empty())
    } else {
        match mounted_sources(mountpoint, input_dir, sources.drop_last()) {
            Ok(front) => match output_file_name_in(mountpoint, input_dir, sources.last().srcset) {
                Ok(srcset) => Ok(
                    front.push(SourceView { media_width: sources.last().media_width, srcset }),
                ),
                Err(message) => Err(message),
            },
            Err(message) => Err(message),
        }
    }
}

/// The picture with every uri moved from the input directory to the
/// mountpoint: the sources first, then the fallback.
pub open spec fn mounted_picture(
    mountpoint: Seq<char>,
    input_dir: Seq<char>,
    picture: PictureView,
) -> Result<PictureView, Seq<char>> {
    match mounted_sources(mountpoint, input_dir, picture.sources) {
        Ok(sources) => match output_file_name_in(mountpoint, input_dir, picture.fallback_uri) {
            Ok(fallback_uri) => Ok(PictureView { sources, fallback_uri }),
            Err(message) => Err(message),
        },
        Err(message) => Err(message),
    }
}

impl MediaWidth {
    /// A copy of the media width.
    pub fn duplicate(&self) -> (r: Self)
        ensures
            r@ == self@,
    {
        match self {
            MediaWidth::Max(value) => MediaWidth::Max(value.clone()),
            MediaWidth::Min(value) => MediaWidth::Min(value.clone()),
        }
    }
}

impl Picture {
    /// Collects all information about the image required for the creation
    /// of a `<picture>` tag, from the name of the image, its dimensions and
    /// the number of its scaled derivatives.
    pub fn from(
        image_file_name: &str,
        source_width: u32,
        source_height: u32,
        scaled_images_count: u8,
    ) -> (r: Result<Self, String>)
        ensures
            picture_result_view(r) == picture_of(
                image_file_name@,
                source_width as nat,
                source_height as nat,
                scaled_images_count as nat,
            ),
    {
        if scaled_images_count == 0 {
            return Err("scaled_images_count must be > 0".to_owned());
        }
        let resized_image_details = match ResizedImageDetails::from(
            image_file_name,
            source_width,
            source_height,
            scaled_images_count,
        ) {
            Ok(details) => details,
            Err(e) => {
                return Err(e.message);
            },
        };
        let ghost plan = derivatives(resized_image_details@);
        let input_dir = directory(image_file_name);
        let mut sources: Vec<SourceAttributes> = Vec::new();
        let mut i: usize = 0;
        while i < resized_image_details.len()
            invariant
                i <= resized_image_details.len(),
                plan == derivatives(resized_image_details@),
                input_dir@ == directory_of(image_file_name@),
                sources.len() == i,
                forall|j: int|
                    0 <= j < i ==> (#[trigger] sources[j])@ == scaled_source(
                        input_dir@,
                        plan[j],
                    ),
            decreases resized_image_details.len() - i,
        {
            let details = &resized_image_details[i];
            sources.push(
                SourceAttributes {
                    media_width: MediaWidth::Max(to_decimal(details.width as u64)),
                    srcset: join(input_dir.as_str(), details.output_file_name.as_str()),
                },
            );
            i += 1;
        }
        proof {
            reveal_strlit("webp");
        }
        let full_scale_image = with_extension(image_file_name, "webp");
        let widest = resized_image_details[resized_image_details.len() - 1].width;
        sources.push(
            SourceAttributes {
                media_width: MediaWidth::Min(to_decimal(widest as u64 + 1)),
                srcset: full_scale_image,
            },
        );
        assert(source_views(sources@) =~= scaled_sources(
            directory_of(image_file_name@),
            plan,
        ).push(full_scale_source(image_file_name@, plan.last())));
        Ok(Self { sources, fallback_uri: image_file_name.to_owned() })
    }

    /// Creates a string that contains the full `<picture>` tag. It can
    /// directly be embedded into a webpage.
    pub fn to_html_string(&self, srcset_prefix: Option<String>, alt_text: &str) -> (r: String)
        ensures
            r@ == picture_tag(self@, crate::path::text_of(srcset_prefix), alt_text@),
    {
        let mut html = "<picture>".to_owned();
        let uri_prefix = match &srcset_prefix {
            Some(prefix) => {
                let mut text = prefix.clone();
                text.append("/");
                text
            },
            None => String::new(),
        };
        let ghost views = source_views(self.sources@);
        let mut i: usize = 0;
        assert(views.subrange(0, 0) =~= Seq::<SourceView>::empty());
        assert(html@ =~= "<picture>"@ + source_tags(uri_prefix@, views.subrange(0, 0)));
        while i < self.sources.len()
            invariant
                i <= self.sources.len(),
                views == source_views(self.sources@),
                html@ == "<picture>"@ + source_tags(uri_prefix@, views.subrange(0, i as int)),
            decreases self.sources.len() - i,
        {
            let source = &self.sources[i];
            let ghost before = html@;
            proof {
                let next = views.subrange(0, i + 1);
                assert(next.drop_last() =~= views.subrange(0, i as int));
                assert(next.last() == source@);
            }
            html.append("<source media=\"(");
            match &source.media_width {
                MediaWidth::Max(value) => {
                    html.append("max");
                    html.append("-width: ");
                    html.append(value.as_str());
                },
                MediaWidth::Min(value) => {
                    html.append("min");
                    html.append("-width: ");
                    html.append(value.as_str());
                },
            }
            html.append("px)\" srcset=\"");
            html.append(uri_prefix.as_str());
            html.append(source.srcset.as_str());
            html.append("\">");
            assert(html@ =~= before + source_tag(uri_prefix@, source@));
            assert(html@ =~= "<picture>"@ + source_tags(
                uri_prefix@,
                views.subrange(0, i + 1),
            ));
            i += 1;
        }
        assert(views.subrange(0, i as int) =~= views);
        let ghost before = html@;
        html.append("<img src=\"");
        html.append(uri_prefix.as_str());
        html.append(self.fallback_uri.as_str());
        html.append("\" alt=\"");
        html.append(alt_text);
        html.append("\" />");
        assert(html@ =~= before + fallback_tag(uri_prefix@, self.fallback_uri@, alt_text@));
        html.append("</picture>");
        html
    }

    /// Moves every uri of the picture from the input directory to the
    /// mountpoint: first those of the sources, in order, then the fallback.
    /// The first uri that does not lie under the input directory is an
    /// error.
    pub fn mounted(&self, mountpoint: &str, input_dir: &str) -> (r: Result<Picture, String>)
        ensures
            picture_result_view(r) == mounted_picture(mountpoint@, input_dir@, self@),
    {
        let ghost views = source_views(self.sources@);
        let mut sources: Vec<SourceAttributes> = Vec::new();
        let mut i: usize = 0;
        assert(views.subrange(0, 0) =~= Seq::<SourceView>::empty());
        assert(source_views(sources@) =~= Seq::<SourceView>::empty());
        while i < self.sources.len()
            invariant
                i <= self.sources.len(),
                views == source_views(self.sources@),
                mounted_sources(mountpoint@, input_dir@, views.subrange(0, i as int)) == Ok::<
                    Seq<SourceView>,
                    Seq<char>,
                >(source_views(sources@)),
            decreases self.sources.len() - i,
        {
            let source = &self.sources[i];
            let ghost before = source_views(sources@);
            proof {
                let next = views.subrange(0, i + 1);
                assert(next.drop_last() =~= views.subrange(0, i as int));
                assert(next.last() == source@);
            }
            match create_output_file_name_with_output_dir(
                mountpoint,
                input_dir,
                source.srcset.as_str(),
            ) {
                Ok(srcset) => {
                    sources.push(
                        SourceAttributes { media_width: source.media_width.duplicate(), srcset },
                    );
                    assert(source_views(sources@) =~= before.push(
                        SourceView { media_width: source@.media_width, srcset: srcset@ },
                    ));
                },
                Err(message) => {
                    proof {
                        lemma_mounting_fails_for_good(
                            mountpoint@,
                            input_dir@,
                            views,
                            i + 1,
                            message@,
                        );
                    }
                    return Err(message);
                },
            }
            i += 1;
        }
        assert(views.subrange(0, i as int) =~= views);
        match create_output_file_name_with_output_dir(
            mountpoint,
            input_dir,
            self.fallback_uri.as_str(),
        ) {
            Ok(fallback_uri) => Ok(Picture { sources, fallback_uri }),
            Err(message) => Err(message),
        }
    }
}

/// Where the first sources cannot be mounted, all of them cannot, and the
/// error is the same.
proof fn lemma_mounting_fails_for_good(
    mountpoint: Seq<char>,
    input_dir: Seq<char>,
    sources: Seq<SourceView>,
    count: int,
    message: Seq<char>,
)
    requires
        0 <= count <= sources.len(),
        mounted_sources(mountpoint, input_dir, sources.subrange(0, count)) == Err::<
            Seq<SourceView>,
            Seq<char>,
        >(message),
    ensures
        mounted_sources(mountpoint, input_dir, sources) == Err::<Seq<SourceView>, Seq<char>>(
            message,
        ),
    decreases sources.len() - count,
{
    if count == sources.len() {
        assert(sources.subrange(0, count) =~= sources);
    } else {
        let next = sources.subrange(0, count + 1);
        assert(next.drop_last() =~= sources.subrange(0, count));
        lemma_mounting_fails_for_good(mountpoint, input_dir, sources, count + 1, message);
    }
}

/// An image of the install folder: its path and its dimensions.
#[derive(Debug)]
pub struct ImageInfo {
    pub path: String,
    pub width: u32,
    pub height: u32,
}

/// One entry of the register: the original file name of an image, and its
/// picture.
#[derive(Debug)]
pub struct RegisterEntry {
    pub image: String,
    pub picture: Picture,
}

/// The pictures that a sequence of entries holds, by the file name of their
/// image. Of two entries for one image the later one counts.
pub open spec fn registered(entries: Seq<RegisterEntry>) -> Map<Seq<char>, PictureView>
    decreases entries.len(),
{
    if entries.len() == 0 {
        Map::empty()
    } else {
        registered(entries.drop_last()).insert(entries.last().image@, entries.last().picture@)
    }
}

/// The pictures of the first `count` images, by the file name of their
/// image, or the error of the first image that has no picture.
pub open spec fn register_of(images: Seq<ImageInfo>, scale_count: nat, count: nat) -> Result<
    Map<Seq<char>, PictureView>,
    Seq<char>,
>
    decreases count,
{
    if count == 0 {
        Ok(Map::empty())
    } else {
        match register_of(images, scale_count, (count - 1) as nat) {
            Ok(register) => match picture_of(
                images[count - 1].path@,
                images[count - 1].width as nat,
                images[count - 1].height as nat,
                scale_count,
            ) {
                Ok(picture) => Ok(register.insert(images[count - 1].path@, picture)),
                Err(message) => Err(message),
            },
            Err(message) => Err(message),
        }
    }
}

/// The message of the error for a configuration without install folder.
pub open spec fn no_install_folder_message() -> Seq<char> {
    "The install_images_into parameter needs to be set!"@
}

/// The message of the error for an install folder that is no directory.
pub open spec fn invalid_install_folder_message() -> Seq<char> {
    "The install_images_into parameter is not a valid directory"@
}

/// The message of the error for an image that is not in the register.
pub open spec fn image_not_found_message() -> Seq<char> {
    "Image not found!"@
}

/// What the register of a configuration holds, for the images that were
/// found in its install folder.
pub open spec fn register_for(config: Config, install_dir_is_dir: bool, images: Seq<ImageInfo>) -> Result<
    Map<Seq<char>, PictureView>,
    Seq<char>,
> {
    if config.install_images_into is None {
        Err(no_install_folder_message())
    } else if !install_dir_is_dir {
        Err(invalid_install_folder_message())
    } else {
        register_of(images, config.scaled_images_count as nat, images.len())
    }
}

/// Contains all required details of the images to create an according
/// picture tag, by the original file name of each image.
#[derive(Debug)]
pub struct PictureRegister {
    config: Config,
    register: Vec<RegisterEntry>,
}

impl View for PictureRegister {
    type V = Map<Seq<char>, PictureView>;

    closed spec fn view(&self) -> Map<Seq<char>, PictureView> {
        registered(self.register@)
    }
}

/// What the making of a register stands for.
pub open spec fn register_result_view(r: Result<PictureRegister, String>) -> Result<
    Map<Seq<char>, PictureView>,
    Seq<char>,
> {
    match r {
        Ok(register) => Ok(register@),
        Err(message) => Err(message@),
    }
}

impl PictureRegister {
    /// Creates a new instance from the given config and the png images that
    /// were found in its install folder. The caller says whether the install
    /// folder is a directory.
    pub fn from(config: &Config, install_dir_is_dir: bool, images: &Vec<ImageInfo>) -> (r: Result<
        Self,
        String,
    >)
        ensures
            register_result_view(r) == register_for(*config, install_dir_is_dir, images@),
            r matches Ok(register) ==> register.config() == *config,
    {
        match Self::create_register(config, install_dir_is_dir, images) {
            Ok(register) => Ok(Self { config: config.duplicate(), register }),
            Err(message) => Err(message),
        }
    }

    /// The configuration the register was made for.
    pub closed spec fn config(&self) -> Config {
        self.config
    }

    /// Creates the register from the given config.
    pub fn create_register(
        config: &Config,
        install_dir_is_dir: bool,
        images: &Vec<ImageInfo>,
    ) -> (r: Result<Vec<RegisterEntry>, String>)
        ensures
            match r {
                Ok(entries) => Ok::<Map<Seq<char>, PictureView>, Seq<char>>(registered(entries@)),
                Err(message) => Err(message@),
            } == register_for(*config, install_dir_is_dir, images@),
    {
        if config.install_images_into.is_none() {
            return Err("The install_images_into parameter needs to be set!".to_owned());
        }
        if !install_dir_is_dir {
            return Err("The install_images_into parameter is not a valid directory".to_owned());
        }
        let mut register: Vec<RegisterEntry> = Vec::new();
        let mut i: usize = 0;
        while i < images.len()
            invariant
                i <= images.len(),
                config.install_images_into is Some,
                install_dir_is_dir,
                register_of(images@, config.scaled_images_count as nat, i as nat) == Ok::<
                    Map<Seq<char>, PictureView>,
                    Seq<char>,
                >(registered(register@)),
            decreases images.len() - i,
        {
            let image = &images[i];
            let ghost before = register@;
            match Picture::from(
                image.path.as_str(),
                image.width,
                image.height,
                config.scaled_images_count,
            ) {
                Ok(picture) => {
                    register.push(RegisterEntry { image: image.path.clone(), picture });
                    assert(register@.drop_last() =~= before);
                },
                Err(message) => {
                    proof {
                        lemma_register_fails_for_good(
                            images@,
                            config.scaled_images_count as nat,
                            (i + 1) as nat,
                            message@,
                        );
                    }
                    return Err(message);
                },
            }
            i += 1;
        }
        Ok(register)
    }

    /// Returns a reference to the `Picture` instance of the given image.
    /// Please use the original filename of the picture that you want to use.
    pub fn get(&self, image: &str) -> (r: Result<&Picture, String>)
        ensures
            match r {
                Ok(picture) => self@.dom().contains(image@) && picture@ == self@[image@],
                Err(message) => !self@.dom().contains(image@) && message@
                    == image_not_found_message(),
            },
    {
        let mut i: usize = self.register.len();
        assert(self.register@.subrange(0, i as int) =~= self.register@);
        while i > 0
            invariant
                i <= self.register.len(),
                registered(self.register@).dom().contains(image@) == registered(
                    self.register@.subrange(0, i as int),
                ).dom().contains(image@),
                registered(self.register@).dom().contains(image@) ==> registered(
                    self.register@,
                )[image@] == registered(self.register@.subrange(0, i as int))[image@],
            decreases i,
        {
            i -= 1;
            proof {
                let next = self.register@.subrange(0, i + 1);
                assert(next.drop_last() =~= self.register@.subrange(0, i as int));
                assert(next.last() == self.register[i as int]);
            }
            let entry = &self.register[i];
            if entry.image == image.to_owned() {
                return Ok(&entry.picture);
            }
        }
        Err("Image not found!".to_owned())
    }
}

/// Where the first images have no register, all of them have none, and the
/// error is the same.
proof fn lemma_register_fails_for_good(
    images: Seq<ImageInfo>,
    scale_count: nat,
    count: nat,
    message: Seq<char>,
)
    requires
        count <= images.len(),
        register_of(images, scale_count, count) == Err::<Map<Seq<char>, PictureView>, Seq<char>>(
            message,
        ),
    ensures
        register_of(images, scale_count, images.len()) == Err::<
            Map<Seq<char>, PictureView>,
            Seq<char>,
        >(message),
    decreases images.len() - count,
{
    if count < images.len() {
        lemma_register_fails_for_good(images, scale_count, count + 1, message);
    }
}

} // verus!
